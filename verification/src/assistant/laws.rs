//! What holds of the assistant's answers and of what it is asked.
use crate::adapters::shortened;
use crate::assistant::{
    around_block, block_at, block_text, first_of_list, history_line, history_text, hit_line,
    hit_lines, instructions, listed_hit, recent, run_line, run_lines, said, snapshot_text,
    workstream_line, workstream_lines, AssistantMessageRow, ModelAnswer, SearchHit, SyncRun,
    ABOUT_SESSIONS, RULES,
};
use crate::domain::Agent;
use crate::store::Workstream;
use crate::text::{first_from_is_first, joined, occurs, trimmed};
use vstd::prelude::*;

verus! {

/// The block of an action is opened by its first fence and closed by the next one behind it; what
/// it holds is what stands between them, and the answer is what stands around them.
pub proof fn what_an_action_block_is(text: Seq<char>)
    ensures
        ({
            let opening = "```noending-action"@;
            let fence = "```"@;
            match block_at(text) {
                Some((i, j)) => {
                    &&& occurs(text, opening, i)
                    &&& forall|k: int| 0 <= k < i ==> !#[trigger] occurs(text, opening, k)
                    &&& i + opening.len() <= j
                    &&& occurs(text, fence, j)
                    &&& forall|k: int|
                        i + opening.len() <= k < j ==> !#[trigger] occurs(text, fence, k)
                    &&& block_text(text) == Some(
                        trimmed(text.subrange(i + opening.len(), j)),
                    )
                    &&& around_block(text) == trimmed(text.take(i) + text.skip(j + fence.len()))
                },
                None => {
                    &&& block_text(text) is None
                    &&& around_block(text) == trimmed(text)
                    &&& forall|i: int, j: int|
                        0 <= i && i + opening.len() <= j && #[trigger] occurs(text, opening, i) && (
                        forall|k: int| 0 <= k < i ==> !#[trigger] occurs(text, opening, k))
                            ==> !#[trigger] occurs(text, fence, j)
                },
            }
        }),
{
    let opening = "```noending-action"@;
    let fence = "```"@;
    first_from_is_first(text, opening, 0);
    match crate::text::first_from(text, opening, 0) {
        None => {},
        Some(i) => {
            first_from_is_first(text, fence, i + opening.len());
        },
    }
}

/// The assistant is told what it is and what it may do.
pub proof fn the_assistant_is_told_the_rules()
    ensures
        instructions() == ABOUT_SESSIONS@ + Agent::ClaudeCode.shown() + RULES@,
{
}

/// A workstream, a hit and a run are told by what they are.
pub proof fn what_a_line_of_the_snapshot_tells(w: Workstream, h: SearchHit, r: SyncRun)
    ensures
        workstream_line(w) == "- id="@ + w.id@ + " | "@ + w.title@ + " | lifecycle="@ + w.lifecycle@
            + " | "@ + w.description@ + "\n"@,
        hit_line(h) == "- ["@ + h.kind@ + "] "@ + h.title@ + " | parent="@ + h.parent_id@ + "\n"@,
        run_line(r) == "- ["@ + r.created_at@ + "] "@ + r.summary@ + " ("@ + r.runtime@ + ")\n"@,
{
}

/// Every workstream, hit and run that is told has its line, in order.
pub proof fn one_more_line_of_the_snapshot(
    workstreams: Seq<Workstream>,
    w: Workstream,
    hits: Seq<SearchHit>,
    h: SearchHit,
    runs: Seq<SyncRun>,
    r: SyncRun,
)
    ensures
        workstream_lines(Seq::empty()).len() == 0,
        workstream_lines(workstreams.push(w)) == workstream_lines(workstreams) + workstream_line(w),
        hit_lines(Seq::empty()).len() == 0,
        hit_lines(hits.push(h)) == hit_lines(hits) + hit_line(h),
        run_lines(Seq::empty()).len() == 0,
        run_lines(runs.push(r)) == run_lines(runs) + run_line(r),
{
    assert(workstreams.push(w).drop_last() =~= workstreams);
    assert(hits.push(h).drop_last() =~= hits);
    assert(runs.push(r).drop_last() =~= runs);
}

/// The assistant sees the first twenty workstreams, every hit or that there is none, and the runs.
pub proof fn what_the_assistant_sees(
    workstreams: Seq<Workstream>,
    hits: Seq<SearchHit>,
    runs: Seq<SyncRun>,
)
    ensures
        workstreams.len() <= 20 ==> first_of_list(workstreams, 20) == workstreams,
        workstreams.len() > 20 ==> first_of_list(workstreams, 20) == workstreams.take(20),
        hits.len() > 0 ==> snapshot_text(workstreams, hits, runs) == "== Workstreams ==\n"@
            + workstream_lines(first_of_list(workstreams, 20)) + "\n== 相关检索命中 ==\n"@
            + hit_lines(hits) + "\n== 最近同步 ==\n"@ + run_lines(runs),
        hits.len() == 0 ==> snapshot_text(workstreams, hits, runs) == "== Workstreams ==\n"@
            + workstream_lines(first_of_list(workstreams, 20)) + "\n== 相关检索命中 ==\n"@
            + "(none)\n"@ + "\n== 最近同步 ==\n"@ + run_lines(runs),
{
}

/// A message is told by who said it and how it begins; the last six messages are told, in order.
pub proof fn what_the_assistant_remembers(v: Seq<AssistantMessageRow>, m: AssistantMessageRow)
    ensures
        m.role@ == "user"@ ==> history_line(m) == "用户"@ + ": "@ + shortened(m.content@, 500)
            + "\n"@,
        m.role@ != "user"@ ==> history_line(m) == "Assistant"@ + ": "@ + shortened(m.content@, 500)
            + "\n"@,
        history_text(Seq::empty()).len() == 0,
        history_text(v.push(m)) == history_text(v) + history_line(m),
        v.len() <= 6 ==> recent(v) == v,
        v.len() > 6 ==> recent(v).len() == 6 && forall|i: int|
            0 <= i < 6 ==> #[trigger] recent(v)[i] == v[v.len() - 6 + i],
{
    assert(v.push(m).drop_last() =~= v);
}

/// A model's answer is said as it is; an empty one asks to try again. Where no model answered, what
/// a search found is listed, or that nothing was.
pub proof fn what_is_said(a: ModelAnswer, hits: Seq<SearchHit>)
    ensures
        a.text@.len() > 0 ==> said(Some(a), hits) == (a.text@, a.runtime@),
        a.text@.len() == 0 ==> said(Some(a), hits) == (
            "（模型返回为空，请重试，或到 Settings → Agents 调整该 Agent 的 Runtime。）"@,
            "empty"@,
        ),
        said(None, hits).1 == "retrieval-only"@,
        hits.len() == 0 ==> said(None, hits).0
            == "尚未选择 Assistant 的 Agent，或该 Agent CLI 未安装，且检索没有命中。请在 Settings → Agents 配置。"@,
        hits.len() > 0 ==> exists|listed: Seq<Seq<char>>|
            {
                &&& listed.len() == hits.len()
                &&& forall|i: int|
                    0 <= i < hits.len() ==> #[trigger] listed[i] == "- ["@ + hits[i].kind@ + "] "@
                        + shortened(hits[i].title@, 80)
                &&& said(None, hits).0
                    == "尚未选择 Assistant 的 Agent（或该 Agent CLI 未安装），以下是通过检索找到的相关内容：\n"@
                    + #[trigger] joined(listed, "\n"@)
            },
{
    let listed = hits.map_values(|h: SearchHit| listed_hit(h));
    if hits.len() > 0 {
        assert(said(None, hits).0
            == "尚未选择 Assistant 的 Agent（或该 Agent CLI 未安装），以下是通过检索找到的相关内容：\n"@
            + joined(listed, "\n"@));
    }
}

} // verus!
