//! The assistant: what it is asked, and what is made of its answer.
//!
//! An answer may end with a fenced block that proposes an action. Nothing is done without a
//! person's consent: the block is taken out of the answer and shown as a proposal.
pub mod laws;

use crate::adapters::registry::{exec_args, exec_command, no_answer};
use crate::adapters::{shortened, truncate_text, AgentCommand, CommandLine};
use crate::context::launch::{name_means, CliExtractor};
use crate::domain::{copy_text, Agent, AgentInstallation};
use crate::error::{other, AppError, Fault};
use crate::store::Workstream;
use crate::text::{
    chars_of, find_from, first_from, join, joined, same, string_of, texts, trim, trimmed,
};
use vstd::prelude::*;

verus! {

/// An action that the assistant proposes.
pub struct ActionProposal {
    pub action: String,
    pub agent: Option<String>,
    pub owner_workstream_id: Option<String>,
    pub cwd: Option<String>,
    pub session_id: Option<String>,
}

/// What the assistant replies.
pub struct AssistantReply {
    pub session_id: String,
    pub content: String,
    pub action: Option<ActionProposal>,
    pub runtime: String,
}

/// A message of a talk with the assistant.
pub struct AssistantMessageRow {
    pub role: String,
    pub content: String,
}

/// Something that a search found.
pub struct SearchHit {
    pub kind: String,
    pub title: String,
    pub parent_id: String,
}

/// A run that brought sessions up to date.
pub struct SyncRun {
    pub created_at: String,
    pub summary: String,
    pub runtime: String,
}

/// What a model answered, and which.
pub struct ModelAnswer {
    pub text: String,
    pub runtime: String,
}

// ---------------------------------------------------------------------------
// Actions
// ---------------------------------------------------------------------------

/// Where the block of an action stands: its fence, and the fence that ends it.
pub open spec fn block_at(text: Seq<char>) -> Option<(int, int)> {
    match first_from(text, "```noending-action"@, 0) {
        None => None,
        Some(i) => match first_from(text, "```"@, i + "```noending-action"@.len()) {
            None => None,
            Some(j) => Some((i, j)),
        },
    }
}

/// What the block of an action holds.
pub open spec fn block_text(text: Seq<char>) -> Option<Seq<char>> {
    match block_at(text) {
        None => None,
        Some((i, j)) => Some(trimmed(text.subrange(i + "```noending-action"@.len(), j))),
    }
}

/// A text without the block of an action.
pub open spec fn around_block(text: Seq<char>) -> Seq<char> {
    match block_at(text) {
        None => trimmed(text),
        Some((i, j)) => trimmed(text.take(i) + text.skip(j + "```"@.len())),
    }
}

fn find_block(v: &Vec<char>) -> (r: Option<(usize, usize, usize, usize)>)
    ensures
        match r {
            Some((i, from, j, to)) => block_at(v@) == Some((i as int, j as int)) && from == i
                + "```noending-action"@.len() && to == j + "```"@.len() && i <= from <= j <= to
                <= v@.len(),
            None => block_at(v@) is None,
        },
{
    let begin = chars_of("```noending-action");
    let end = chars_of("```");
    let n: usize = v.len();
    match find_from(v, &begin, 0) {
        None => None,
        Some(i) => {
            proof {
                crate::text::first_from_is_first(v@, begin@, 0);
            }
            let from: usize = i + begin.len();
            match find_from(v, &end, from) {
                None => None,
                Some(j) => {
                    proof {
                        crate::text::first_from_is_first(v@, end@, from as int);
                    }
                    Some((i, from, j, j + end.len()))
                },
            }
        },
    }
}

/// What the block of an action holds, where there is one.
pub fn action_block(text: &str) -> (r: Option<String>)
    ensures
        r.deep_view() == block_text(text@),
{
    let v = chars_of(text);
    match find_block(&v) {
        None => None,
        Some((i, from, j, to)) => {
            let inside = string_of(&v, from, j);
            Some(trim(inside.as_str()))
        },
    }
}

/// Parts an answer from the action it proposes. `action` is what could be read from its block;
/// where nothing could, the answer stays whole.
pub fn split_action(text: &str, action: Option<ActionProposal>) -> (r: (
    String,
    Option<ActionProposal>,
))
    ensures
        match action {
            Some(a) => if block_at(text@) is Some {
                r.0@ == around_block(text@) && r.1 == Some(a)
            } else {
                r.0@ == trimmed(text@) && r.1 is None
            },
            None => r.0@ == trimmed(text@) && r.1 is None,
        },
{
    match action {
        None => (trim(text), None),
        Some(a) => {
            let v = chars_of(text);
            match find_block(&v) {
                None => (trim(text), None),
                Some((i, from, j, to)) => {
                    let n: usize = v.len();
                    let mut content = string_of(&v, 0, i);
                    content.append(string_of(&v, to, n).as_str());
                    assert(text@.subrange(0, i as int) =~= text@.take(i as int));
                    assert(text@.subrange(to as int, n as int) =~= text@.skip(to as int));
                    (trim(content.as_str()), Some(a))
                },
            }
        },
    }
}

// ---------------------------------------------------------------------------
// Prompts
// ---------------------------------------------------------------------------

/// What NoEnding is, up to the agents that run its sessions.
pub const ABOUT_SESSIONS: &'static str =
    "你是 NoEnding 的 Workspace Assistant。NoEnding 是一个以 Workstream Context 为核心的本地多 Agent 工作空间：Project 是 WorkspacePath 的物理聚合（描述这次执行在哪个目录 / 仓库），Workstream 是跨目录、跨 Project 的持续工作目标，保存持续演进的语义上下文（Goal / Current State / Constraints / Decisions / Open Questions + 扩展条目），Session 是 Codex / ";

/// What the assistant is to do.
pub const RULES: &'static str =
    " / Pi 的一次实际执行，最多属于一个 Workstream（Owner）。\n\n规则：\n1. 基于下方「领域快照」回答用户问题，语言跟随用户；找不到就说找不到，不要编造；\n2. 只做只读分析。如果用户的意图需要执行写操作（启动会话 / 恢复会话），不要描述执行过程，而是在回复末尾输出一个动作块：\n```noending-action\n{\"action\":\"launch_new_session\",\"agent\":\"claude_code\",\"owner_workstream_id\":\"<id>\",\"cwd\":\"/可选\"}\n```\n或\n{\"action\":\"resume_session\",\"session_id\":\"<id>\"}\n3. action/agent 取值只能用快照里给出的 id 和 codex/claude_code/pi；\n4. 保持简洁克制，不使用夸张营销语言。";

/// What the assistant is told about itself.
pub open spec fn instructions() -> Seq<char> {
    ABOUT_SESSIONS@ + Agent::ClaudeCode.shown() + RULES@
}

/// A workstream as the assistant sees it.
pub open spec fn workstream_line(w: Workstream) -> Seq<char> {
    "- id="@ + w.id@ + " | "@ + w.title@ + " | lifecycle="@ + w.lifecycle@ + " | "@
        + w.description@ + "\n"@
}

/// A search hit as the assistant sees it.
pub open spec fn hit_line(h: SearchHit) -> Seq<char> {
    "- ["@ + h.kind@ + "] "@ + h.title@ + " | parent="@ + h.parent_id@ + "\n"@
}

/// A run as the assistant sees it.
pub open spec fn run_line(r: SyncRun) -> Seq<char> {
    "- ["@ + r.created_at@ + "] "@ + r.summary@ + " ("@ + r.runtime@ + ")\n"@
}

/// The lines of the first twenty workstreams.
pub open spec fn workstream_lines(v: Seq<Workstream>) -> Seq<char>
    decreases v.len(),
{
    if v.len() == 0 {
        Seq::empty()
    } else {
        workstream_lines(v.drop_last()) + workstream_line(v.last())
    }
}

/// The lines of search hits.
pub open spec fn hit_lines(v: Seq<SearchHit>) -> Seq<char>
    decreases v.len(),
{
    if v.len() == 0 {
        Seq::empty()
    } else {
        hit_lines(v.drop_last()) + hit_line(v.last())
    }
}

/// The lines of runs.
pub open spec fn run_lines(v: Seq<SyncRun>) -> Seq<char>
    decreases v.len(),
{
    if v.len() == 0 {
        Seq::empty()
    } else {
        run_lines(v.drop_last()) + run_line(v.last())
    }
}

/// The first of a list, at most so many.
pub open spec fn first_of_list<T>(v: Seq<T>, n: nat) -> Seq<T> {
    if v.len() <= n {
        v
    } else {
        v.take(n as int)
    }
}

/// What the assistant sees of the workspace.
pub open spec fn snapshot_text(
    workstreams: Seq<Workstream>,
    hits: Seq<SearchHit>,
    runs: Seq<SyncRun>,
) -> Seq<char> {
    "== Workstreams ==\n"@ + workstream_lines(first_of_list(workstreams, 20))
        + "\n== 相关检索命中 ==\n"@ + (if hits.len() == 0 {
        "(none)\n"@
    } else {
        hit_lines(hits)
    }) + "\n== 最近同步 ==\n"@ + run_lines(runs)
}

/// What the assistant sees of the workspace: workstreams, what a search found, and the last runs.
pub fn build_domain_snapshot(
    workstreams: &Vec<Workstream>,
    hits: &Vec<SearchHit>,
    runs: &Vec<SyncRun>,
) -> (r: String)
    ensures
        r@ == snapshot_text(workstreams@, hits@, runs@),
{
    let mut snap: String = "== Workstreams ==\n".to_owned();
    let ghost listed = first_of_list(workstreams@, 20);
    let count: usize = if workstreams.len() <= 20 {
        workstreams.len()
    } else {
        20
    };
    let mut i: usize = 0;
    assert(listed.take(0) =~= Seq::<Workstream>::empty());
    assert(snap@ =~= "== Workstreams ==\n"@ + workstream_lines(listed.take(0)));
    while i < count
        invariant
            i <= count,
            count <= workstreams@.len(),
            count == listed.len(),
            listed == workstreams@.take(count as int),
            snap@ == "== Workstreams ==\n"@ + workstream_lines(listed.take(i as int)),
        decreases count - i,
    {
        assert(listed.take(i + 1).drop_last() =~= listed.take(i as int));
        assert(listed.take(i + 1).last() == workstreams@[i as int]);
        let ghost before = snap@;
        let w = &workstreams[i];
        snap.append("- id=");
        snap.append(w.id.as_str());
        snap.append(" | ");
        snap.append(w.title.as_str());
        snap.append(" | lifecycle=");
        snap.append(w.lifecycle.as_str());
        snap.append(" | ");
        snap.append(w.description.as_str());
        snap.append("\n");
        assert(snap@ =~= before + workstream_line(*w));
        i = i + 1;
        assert(snap@ =~= "== Workstreams ==\n"@ + workstream_lines(listed.take(i as int)));
    }
    assert(listed.take(i as int) =~= listed);
    snap.append("\n== 相关检索命中 ==\n");
    let ghost head = snap@;
    if hits.len() == 0 {
        snap.append("(none)\n");
    } else {
        let mut j: usize = 0;
        assert(hits@.take(0) =~= Seq::<SearchHit>::empty());
        assert(snap@ =~= head + hit_lines(hits@.take(0)));
        while j < hits.len()
            invariant
                j <= hits@.len(),
                snap@ == head + hit_lines(hits@.take(j as int)),
            decreases hits@.len() - j,
        {
            assert(hits@.take(j + 1).drop_last() =~= hits@.take(j as int));
            assert(hits@.take(j + 1).last() == hits@[j as int]);
            let ghost before = snap@;
            snap.append("- [");
            snap.append(hits[j].kind.as_str());
            snap.append("] ");
            snap.append(hits[j].title.as_str());
            snap.append(" | parent=");
            snap.append(hits[j].parent_id.as_str());
            snap.append("\n");
            assert(snap@ =~= before + hit_line(hits@[j as int]));
            j = j + 1;
            assert(snap@ =~= head + hit_lines(hits@.take(j as int)));
        }
        assert(hits@.take(j as int) =~= hits@);
    }
    snap.append("\n== 最近同步 ==\n");
    let ghost body = snap@;
    let mut k: usize = 0;
    assert(runs@.take(0) =~= Seq::<SyncRun>::empty());
    assert(snap@ =~= body + run_lines(runs@.take(0)));
    while k < runs.len()
        invariant
            k <= runs@.len(),
            snap@ == body + run_lines(runs@.take(k as int)),
        decreases runs@.len() - k,
    {
        assert(runs@.take(k + 1).drop_last() =~= runs@.take(k as int));
        assert(runs@.take(k + 1).last() == runs@[k as int]);
        let ghost before = snap@;
        snap.append("- [");
        snap.append(runs[k].created_at.as_str());
        snap.append("] ");
        snap.append(runs[k].summary.as_str());
        snap.append(" (");
        snap.append(runs[k].runtime.as_str());
        snap.append(")\n");
        assert(snap@ =~= before + run_line(runs@[k as int]));
        k = k + 1;
        assert(snap@ =~= body + run_lines(runs@.take(k as int)));
    }
    assert(runs@.take(k as int) =~= runs@);
    snap
}

/// A message of the talk as the assistant sees it.
pub open spec fn history_line(m: AssistantMessageRow) -> Seq<char> {
    (if m.role@ == "user"@ {
        "用户"@
    } else {
        "Assistant"@
    }) + ": "@ + shortened(m.content@, 500) + "\n"@
}

/// Messages of the talk as the assistant sees them.
pub open spec fn history_text(v: Seq<AssistantMessageRow>) -> Seq<char>
    decreases v.len(),
{
    if v.len() == 0 {
        Seq::empty()
    } else {
        history_text(v.drop_last()) + history_line(v.last())
    }
}

/// The last six messages of a talk.
pub open spec fn recent(v: Seq<AssistantMessageRow>) -> Seq<AssistantMessageRow> {
    if v.len() <= 6 {
        v
    } else {
        v.skip(v.len() - 6)
    }
}

/// The last six messages of the talk as the assistant sees them.
pub fn build_conversation_history(msgs: &Vec<AssistantMessageRow>) -> (r: String)
    ensures
        r@ == history_text(recent(msgs@)),
{
    let n: usize = msgs.len();
    let start: usize = n.saturating_sub(6);
    let ghost list = recent(msgs@);
    let mut out: String = String::new();
    let mut i: usize = 0;
    assert(list.take(0) =~= Seq::<AssistantMessageRow>::empty());
    assert(out@ =~= history_text(list.take(0)));
    while i < n - start
        invariant
            n == msgs@.len(),
            start <= n,
            i <= n - start,
            list == msgs@.skip(start as int),
            out@ == history_text(list.take(i as int)),
        decreases n - start - i,
    {
        assert(list.take(i + 1).drop_last() =~= list.take(i as int));
        assert(list.take(i + 1).last() == msgs@[start + i]);
        let ghost before = out@;
        let m = &msgs[start + i];
        if same(m.role.as_str(), "user") {
            out.append("用户");
        } else {
            out.append("Assistant");
        }
        out.append(": ");
        out.append(truncate_text(m.content.as_str(), 500).as_str());
        out.append("\n");
        assert(out@ =~= before + history_line(*m));
        i = i + 1;
    }
    assert(list.take(i as int) =~= list);
    out
}

// ---------------------------------------------------------------------------
// The service
// ---------------------------------------------------------------------------

/// What is said where no model is configured and nothing was found.
pub open spec fn nothing_found() -> Seq<char> {
    "尚未选择 Assistant 的 Agent，或该 Agent CLI 未安装，且检索没有命中。请在 Settings → Agents 配置。"@
}

/// A search hit as it is listed for people.
pub open spec fn listed_hit(h: SearchHit) -> Seq<char> {
    "- ["@ + h.kind@ + "] "@ + shortened(h.title@, 80)
}

/// What is said, and by what: a model's answer, a request to try again where it is empty, or what
/// a search found where no model is configured.
pub open spec fn said(answer: Option<ModelAnswer>, hits: Seq<SearchHit>) -> (Seq<char>, Seq<char>) {
    match answer {
        Some(a) => if a.text@.len() == 0 {
            (
                "（模型返回为空，请重试，或到 Settings → Agents 调整该 Agent 的 Runtime。）"@,
                "empty"@,
            )
        } else {
            (a.text@, a.runtime@)
        },
        None => (
            if hits.len() == 0 {
                nothing_found()
            } else {
                "尚未选择 Assistant 的 Agent（或该 Agent CLI 未安装），以下是通过检索找到的相关内容：\n"@
                    + joined(hits.map_values(|h: SearchHit| listed_hit(h)), "\n"@)
            },
            "retrieval-only"@,
        ),
    }
}

/// The assistant.
pub struct AssistantService;

/// What a confirmed action launches.
pub enum ActionLaunch {
    New { agent: Agent, owner_workstream_id: Option<String>, cwd: Option<String> },
    Resume { session_id: String },
}

impl AssistantService {
    /// What a person asked, without white space around it.
    pub fn question(user_text: &str) -> (r: Result<String, AppError>)
        ensures
            if trimmed(user_text@).len() == 0 {
                r matches Err(e) && e.deep_view() == Fault::Other("消息不能为空"@)
            } else {
                r matches Ok(q) && q@ == trimmed(user_text@)
            },
    {
        let q = trim(user_text);
        if q.as_str().is_empty() {
            return Err(other("消息不能为空"));
        }
        Ok(q)
    }

    /// What the model is asked.
    pub fn prompt(snapshot: &str, history: &str, question: &str) -> (r: String)
        ensures
            r@ == instructions() + "\n\n== 领域快照 ==\n"@ + snapshot@
                + "\n\n== 对话历史 ==\n"@ + history@ + "\n\n用户: "@ + question@,
    {
        let mut p: String = ABOUT_SESSIONS.to_owned();
        p.append(Agent::ClaudeCode.display_name().as_str());
        p.append(RULES);
        p.append("\n\n== 领域快照 ==\n");
        p.append(snapshot);
        p.append("\n\n== 对话历史 ==\n");
        p.append(history);
        p.append("\n\n用户: ");
        p.append(question);
        p
    }

    /// What is said, and by what.
    pub fn answer(answer: &Option<ModelAnswer>, hits: &Vec<SearchHit>) -> (r: (String, String))
        ensures
            (r.0@, r.1@) == said(*answer, hits@),
    {
        match answer {
            Some(a) => {
                if a.text.as_str().is_empty() {
                    (
                        "（模型返回为空，请重试，或到 Settings → Agents 调整该 Agent 的 Runtime。）".to_owned(),
                        "empty".to_owned(),
                    )
                } else {
                    (a.text.clone(), a.runtime.clone())
                }
            },
            None => {
                if hits.len() == 0 {
                    return (
                        "尚未选择 Assistant 的 Agent，或该 Agent CLI 未安装，且检索没有命中。请在 Settings → Agents 配置。".to_owned(),
                        "retrieval-only".to_owned(),
                    );
                }
                let ghost listed = hits@.map_values(|h: SearchHit| listed_hit(h));
                let mut parts: Vec<String> = Vec::new();
                let mut i: usize = 0;
                assert(texts(parts@) =~= listed.take(0));
                while i < hits.len()
                    invariant
                        i <= hits@.len(),
                        listed == hits@.map_values(|h: SearchHit| listed_hit(h)),
                        texts(parts@) == listed.take(i as int),
                    decreases hits@.len() - i,
                {
                    let ghost before = texts(parts@);
                    let mut line: String = "- [".to_owned();
                    line.append(hits[i].kind.as_str());
                    line.append("] ");
                    line.append(truncate_text(hits[i].title.as_str(), 80).as_str());
                    parts.push(line);
                    assert(texts(parts@) =~= before.push(line@));
                    i = i + 1;
                    assert(listed.take(i as int) =~= listed.take(i - 1).push(listed[i - 1]));
                }
                assert(listed.take(i as int) =~= listed);
                let mut text: String =
                    "尚未选择 Assistant 的 Agent（或该 Agent CLI 未安装），以下是通过检索找到的相关内容：\n".to_owned();
                text.append(join(&parts, "\n").as_str());
                (text, "retrieval-only".to_owned())
            },
        }
    }

    /// The reply of one turn: what is said, without the action it proposes. `action` is what could
    /// be read from the block of an action in it.
    pub fn chat(
        session_id: &str,
        answer: &Option<ModelAnswer>,
        hits: &Vec<SearchHit>,
        action: Option<ActionProposal>,
    ) -> (r: AssistantReply)
        ensures
            ({
                let (text, runtime) = said(*answer, hits@);
                &&& r.session_id@ == session_id@
                &&& r.runtime@ == runtime
                &&& match action {
                    Some(a) => if block_at(text) is Some {
                        r.content@ == around_block(text) && r.action == Some(a)
                    } else {
                        r.content@ == trimmed(text) && r.action is None
                    },
                    None => r.content@ == trimmed(text) && r.action is None,
                }
            }),
    {
        let (text, runtime) = AssistantService::answer(answer, hits);
        let (content, action) = split_action(text.as_str(), action);
        AssistantReply { session_id: session_id.to_owned(), content, action, runtime }
    }

    /// What a confirmed action launches.
    pub fn execute_action(action: &ActionProposal) -> (r: Result<ActionLaunch, AppError>)
        ensures
            if action.action@ == "launch_new_session"@ {
                match r {
                    Ok(ActionLaunch::New { agent, owner_workstream_id, cwd }) => {
                        &&& action.agent.deep_view() == Some(agent.name())
                        &&& owner_workstream_id == action.owner_workstream_id
                        &&& cwd == action.cwd
                    },
                    Ok(_) => false,
                    Err(e) => {
                        &&& e.deep_view() == Fault::Other("动作缺少有效 agent"@)
                        &&& action.agent matches Some(name) ==> name_means(name@, None)
                    },
                }
            } else if action.action@ == "resume_session"@ {
                match action.session_id {
                    Some(id) => r matches Ok(ActionLaunch::Resume { session_id }) && session_id
                        == id,
                    None => r matches Err(e) && e.deep_view() == Fault::Other(
                        "动作缺少 session_id"@,
                    ),
                }
            } else {
                r matches Err(e) && e.deep_view() == Fault::Other(
                    "未知动作: "@ + action.action@,
                )
            },
    {
        let kind: &str = action.action.as_str();
        if same(kind, "launch_new_session") {
            let agent: Option<Agent> = match &action.agent {
                Some(name) => Agent::parse(name.as_str()),
                None => None,
            };
            match agent {
                Some(agent) => Ok(
                    ActionLaunch::New {
                        agent,
                        owner_workstream_id: copy_text(&action.owner_workstream_id),
                        cwd: copy_text(&action.cwd),
                    },
                ),
                None => Err(other("动作缺少有效 agent")),
            }
        } else if same(kind, "resume_session") {
            match &action.session_id {
                Some(id) => Ok(ActionLaunch::Resume { session_id: id.clone() }),
                None => Err(other("动作缺少 session_id")),
            }
        } else {
            let mut message: String = "未知动作: ".to_owned();
            message.append(kind);
            Err(AppError::Other(message))
        }
    }
}

/// The command line that runs a bare prompt through the configured agent.
pub fn raw_prompt(cli: &Option<CliExtractor>, install: &AgentInstallation, prompt: &str) -> (r:
    Result<AgentCommand, AppError>)
    ensures
        match cli {
            None => r matches Err(e) && e.deep_view() == Fault::Other(
                "Assistant 未选择 Agent（Settings → Agents 配置 Runtime）"@,
            ),
            Some(c) => match no_answer(c.agent) {
                Some(why) => r matches Err(e) && e.deep_view() == Fault::Other(why),
                None => r matches Ok(line) && line.deep_view() == (CommandLine {
                    program: install.executable_path@,
                    args: exec_args(c.agent, c.opts, prompt@),
                    cwd: None,
                }),
            },
        },
{
    match cli {
        None => Err(other("Assistant 未选择 Agent（Settings → Agents 配置 Runtime）")),
        Some(c) => exec_command(c.agent, install, &c.opts, prompt),
    }
}

} // verus!
