//! Looking through files for the members of sessions.
//!
//! A file that did not change since it was read is not looked at again. One that holds nothing is
//! passed over: it never stops the search.
use crate::adapters::events::{DiscoveredSession, FoundSession};
use crate::adapters::{DiscoveredMember, Member};
use crate::domain::Agent;
use crate::paths::FoundFile;
use crate::text::{is_listed, texts};
use vstd::prelude::*;

verus! {

/// How the members of an agent are found.
pub trait MemberFinder {
    /// The member that a file is, where it is one.
    spec fn member(&self, file: FoundFile) -> Option<Member>;

    /// The member that a file is, where it is one.
    fn find(&self, file: &FoundFile) -> (r: Option<DiscoveredMember>)
        ensures
            r.deep_view() == self.member(*file),
    ;
}

/// How the sessions of an agent are found.
pub trait SessionFinder {
    /// The session that a file is, where it is one.
    spec fn session(&self, file: FoundFile) -> Option<FoundSession>;

    /// The session that a file is, where it is one.
    fn find(&self, file: &FoundFile) -> (r: Option<DiscoveredSession>)
        ensures
            r.deep_view() == self.session(*file),
    ;
}

/// The members among files, in order, but for the files at the paths that did not change.
pub open spec fn members_in<F: MemberFinder>(
    f: F,
    files: Seq<FoundFile>,
    unchanged: Seq<Seq<char>>,
) -> Seq<Member>
    decreases files.len(),
{
    if files.len() == 0 {
        Seq::empty()
    } else {
        let before = members_in(f, files.drop_last(), unchanged);
        if unchanged.contains(files.last().path@) {
            before
        } else {
            match f.member(files.last()) {
                Some(m) => before.push(m),
                None => before,
            }
        }
    }
}

/// The sessions among files, in order, but for the files at the paths that did not change.
pub open spec fn sessions_in<F: SessionFinder>(
    f: F,
    files: Seq<FoundFile>,
    unchanged: Seq<Seq<char>>,
) -> Seq<FoundSession>
    decreases files.len(),
{
    if files.len() == 0 {
        Seq::empty()
    } else {
        let before = sessions_in(f, files.drop_last(), unchanged);
        if unchanged.contains(files.last().path@) {
            before
        } else {
            match f.session(files.last()) {
                Some(m) => before.push(m),
                None => before,
            }
        }
    }
}

/// The members among files, in order, but for the files at the paths that did not change.
pub fn find_members<F: MemberFinder>(f: &F, files: &Vec<FoundFile>, unchanged: &Vec<String>) -> (r:
    Vec<DiscoveredMember>)
    ensures
        r.deep_view() == members_in(*f, files@, texts(unchanged@)),
{
    let ghost known = texts(unchanged@);
    let mut out: Vec<DiscoveredMember> = Vec::new();
    let mut i: usize = 0;
    assert(files@.take(0) =~= Seq::<FoundFile>::empty());
    assert(out.deep_view() =~= members_in(*f, files@.take(0), known));
    while i < files.len()
        invariant
            i <= files@.len(),
            known == texts(unchanged@),
            out.deep_view() == members_in(*f, files@.take(i as int), known),
        decreases files@.len() - i,
    {
        assert(files@.take(i + 1).drop_last() =~= files@.take(i as int));
        assert(files@.take(i + 1).last() == files@[i as int]);
        if !is_listed(unchanged, files[i].path.as_str()) {
            match f.find(&files[i]) {
                Some(m) => {
                    let ghost before = out.deep_view();
                    out.push(m);
                    assert(out.deep_view() =~= before.push(m.deep_view()));
                },
                None => {},
            }
        }
        i = i + 1;
    }
    assert(files@.take(i as int) =~= files@);
    out
}

/// The sessions among files, in order, but for the files at the paths that did not change.
pub fn find_sessions<F: SessionFinder>(
    f: &F,
    files: &Vec<FoundFile>,
    unchanged: &Vec<String>,
) -> (r: Vec<DiscoveredSession>)
    ensures
        r.deep_view() == sessions_in(*f, files@, texts(unchanged@)),
{
    let ghost known = texts(unchanged@);
    let mut out: Vec<DiscoveredSession> = Vec::new();
    let mut i: usize = 0;
    assert(files@.take(0) =~= Seq::<FoundFile>::empty());
    assert(out.deep_view() =~= sessions_in(*f, files@.take(0), known));
    while i < files.len()
        invariant
            i <= files@.len(),
            known == texts(unchanged@),
            out.deep_view() == sessions_in(*f, files@.take(i as int), known),
        decreases files@.len() - i,
    {
        assert(files@.take(i + 1).drop_last() =~= files@.take(i as int));
        assert(files@.take(i + 1).last() == files@[i as int]);
        if !is_listed(unchanged, files[i].path.as_str()) {
            match f.find(&files[i]) {
                Some(m) => {
                    let ghost before = out.deep_view();
                    out.push(m);
                    assert(out.deep_view() =~= before.push(m.deep_view()));
                },
                None => {},
            }
        }
        i = i + 1;
    }
    assert(files@.take(i as int) =~= files@);
    out
}

// ---------------------------------------------------------------------------
// Laws
// ---------------------------------------------------------------------------

/// What is found among files is found among each part of them: no file keeps another from being
/// found.
pub proof fn files_are_found_on_their_own<F: MemberFinder>(
    f: F,
    a: Seq<FoundFile>,
    b: Seq<FoundFile>,
    unchanged: Seq<Seq<char>>,
)
    ensures
        members_in(f, a + b, unchanged) == members_in(f, a, unchanged) + members_in(
            f,
            b,
            unchanged,
        ),
    decreases b.len(),
{
    if b.len() == 0 {
        assert(a + b =~= a);
        assert(members_in(f, a, unchanged) + members_in(f, b, unchanged) =~= members_in(
            f,
            a,
            unchanged,
        ));
    } else {
        assert((a + b).drop_last() =~= a + b.drop_last());
        files_are_found_on_their_own(f, a, b.drop_last(), unchanged);
        assert(members_in(f, a + b, unchanged) =~= members_in(f, a, unchanged) + members_in(
            f,
            b,
            unchanged,
        ));
    }
}

/// Files that did not change bring nothing.
pub proof fn what_did_not_change_is_not_found_again<F: MemberFinder>(
    f: F,
    files: Seq<FoundFile>,
    unchanged: Seq<Seq<char>>,
)
    requires
        forall|k: int| 0 <= k < files.len() ==> unchanged.contains((#[trigger] files[k]).path@),
    ensures
        members_in(f, files, unchanged).len() == 0,
    decreases files.len(),
{
    if files.len() > 0 {
        let front = files.drop_last();
        assert forall|k: int| 0 <= k < front.len() implies unchanged.contains(
            (#[trigger] front[k]).path@,
        ) by {
            assert(front[k] == files[k]);
        }
        what_did_not_change_is_not_found_again(f, front, unchanged);
        assert(files[files.len() - 1] == files.last());
    }
}

/// Where every member that is found in a file is of one agent, so is every member that is found
/// among files.
pub proof fn members_are_of_one_agent<F: MemberFinder>(
    f: F,
    files: Seq<FoundFile>,
    unchanged: Seq<Seq<char>>,
    agent: Agent,
)
    requires
        forall|x: FoundFile| (#[trigger] f.member(x)) matches Some(m) ==> m.agent == agent,
    ensures
        forall|k: int|
            0 <= k < members_in(f, files, unchanged).len() ==> (#[trigger] members_in(
                f,
                files,
                unchanged,
            )[k]).agent == agent,
    decreases files.len(),
{
    if files.len() > 0 {
        members_are_of_one_agent(f, files.drop_last(), unchanged, agent);
        let before = members_in(f, files.drop_last(), unchanged);
        let all = members_in(f, files, unchanged);
        assert forall|k: int| 0 <= k < all.len() implies (#[trigger] all[k]).agent == agent by {
            if k < before.len() {
                assert(all[k] == before[k]);
            }
        }
    }
}

/// Where every session that is found in a file is of one agent, so is every session that is found
/// among files.
pub proof fn sessions_are_of_one_agent<F: SessionFinder>(
    f: F,
    files: Seq<FoundFile>,
    unchanged: Seq<Seq<char>>,
    agent: Agent,
)
    requires
        forall|x: FoundFile| (#[trigger] f.session(x)) matches Some(m) ==> m.agent == agent,
    ensures
        forall|k: int|
            0 <= k < sessions_in(f, files, unchanged).len() ==> (#[trigger] sessions_in(
                f,
                files,
                unchanged,
            )[k]).agent == agent,
    decreases files.len(),
{
    if files.len() > 0 {
        sessions_are_of_one_agent(f, files.drop_last(), unchanged, agent);
        let before = sessions_in(f, files.drop_last(), unchanged);
        let all = sessions_in(f, files, unchanged);
        assert forall|k: int| 0 <= k < all.len() implies (#[trigger] all[k]).agent == agent by {
            if k < before.len() {
                assert(all[k] == before[k]);
            }
        }
    }
}

} // verus!
