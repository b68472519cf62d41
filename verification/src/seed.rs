use vstd::prelude::*;

use crate::db::sql::{Db, SqlCall, SqlValue};

use crate::db::sql;
use crate::error::AppResult;
use crate::models::prompt::CreatePromptRequest;
use crate::services::{playbook_service, prompt_service, settings_service, transaction};

verus! {

broadcast use crate::db::sql::group_calls;

/// The setting that records when the starter content was added.
pub const SEEDED_AT_KEY: &'static str = "seeded_at";

/// Counts the active prompts.
pub const COUNT_ACTIVE_SQL: &'static str = "SELECT COUNT(*) FROM prompts WHERE deleted_at IS NULL";

/// Adds the starter content on first launch: only when it was never added
/// before and no active prompt exists. Seeding happens in one transaction
/// and leaves a marker, so deleting every prompt later does not bring it
/// back: once the marker is stored, nothing else is read or written.
pub fn seed_if_empty(conn: &mut Db) -> (r: AppResult<()>)
    ensures
        sql::extends(old(conn).calls(), final(conn).calls()),
        r is Ok ==> sql::writes_ok(old(conn).calls(), final(conn).calls()),
        sql::all_met(old(conn).calls(), final(conn).calls()) ==> r is Ok,
        settings_service::reads_setting(final(conn).calls(), old(conn).calls().len() as int, SEEDED_AT_KEY@),
        ({
            let n = old(conn).calls().len() as int;
            let calls = final(conn).calls();
            settings_service::readable(calls[n].outcome) && settings_service::setting_read(calls[n].outcome) is Some
                ==> r is Ok && calls.len() == n + 1
        }),
        ({
            let n = old(conn).calls().len() as int;
            let calls = final(conn).calls();
            settings_service::readable(calls[n].outcome) && settings_service::setting_read(calls[n].outcome) is None
                ==> {
                    &&& sql::text_call(calls, n + 1, COUNT_ACTIVE_SQL@, seq![])
                    &&& (sql::first_row(calls[n + 1].outcome) matches Some(row) && (row[0] matches SqlValue::Integer(c) && c > 0) && sql::met(calls[n + 1])
                        ==> r is Ok && calls.len() == n + 2)
                    &&& (sql::first_row(calls[n + 1].outcome) matches Some(row) && row[0] == SqlValue::Integer(0) && sql::met(calls[n + 1])
                        ==> transaction::in_transaction(calls.take(n + 2), calls, r is Ok)
                            && (r is Ok ==> seeded(calls.drop_last(), n + 3)))
                }
        }),
{
    let ghost n = conn.calls().len() as int;
    if settings_service::get_setting(conn, SEEDED_AT_KEY)?.is_some() {
        return Ok(());
    }
    let ghost c1 = conn.calls();
    let row = sql::query_one(conn, COUNT_ACTIVE_SQL, &Vec::new(), &[sql::Kind::Int])?;
    let ghost c2 = conn.calls();
    let count = sql::col_int(&row, 0)?;
    if count > 0 {
        return Ok(());
    }
    let ghost s0 = conn.calls();
    if let Err(e) = transaction::begin(conn) {
        proof {
            transaction::lemma_transaction_shape(s0, conn.calls(), conn.calls(), conn.calls(), false, false);
            assert(conn.calls()[n] == c1[n]);
            assert(s0 =~= conn.calls().take(n + 2));
        }
        return Err(e);
    }
    let ghost s1 = conn.calls();
    let result = seed_tx(conn);
    let ghost s2 = conn.calls();
    let r = transaction::finish(conn, result);
    proof {
        transaction::lemma_transaction_shape(s0, s1, s2, conn.calls(), true, r is Ok);
        assert(conn.calls()[n] == c1[n]);
        assert(conn.calls()[n + 1] == c2[n + 1]);
        assert(s0 =~= conn.calls().take(n + 2));
        if r is Ok {
            assert(conn.calls().drop_last() =~= s2);
        }
    }
    r
}

/// From position `n`: the starter kit's writes, then the marker stored last.
pub open spec fn seeded(calls: Seq<SqlCall>, n: int) -> bool {
    &&& starter_writes(calls, n)
    &&& calls.len() > 0
    &&& calls.last().sql == settings_service::SET_SETTING_SQL@
    &&& calls.last().params.len() == 2
    &&& sql::text_is(calls.last().params[0], SEEDED_AT_KEY@)
    &&& calls.last().outcome is Changed
}

fn seed_tx(conn: &mut Db) -> (r: AppResult<()>)
    ensures
        sql::extends(old(conn).calls(), final(conn).calls()),
        r is Ok ==> sql::writes_ok(old(conn).calls(), final(conn).calls()),
        sql::all_met(old(conn).calls(), final(conn).calls()) ==> r is Ok,
        r is Ok ==> seeded(final(conn).calls(), old(conn).calls().len() as int),
{
    seed_starter_kit(conn)?;
    let ghost c1 = conn.calls();
    let now = crate::ids::now_rfc3339();
    let r = settings_service::set_setting(conn, SEEDED_AT_KEY, now.as_str());
    proof {
        if r is Ok {
            let ps = choose|ps: Seq<int>| #[trigger] starter_writes_at(c1, old(conn).calls().len() as int, ps);
            assert forall|k: int| 0 <= k < ps.len() implies #[trigger] conn.calls()[ps[k]] == c1[ps[k]] by {}
            assert(starter_writes_at(conn.calls(), old(conn).calls().len() as int, ps));
        }
    }
    r
}

/// From position `n`, at the increasing positions `ps`: six prompt rows
/// inserted, then one playbook row, then four step rows, each of which
/// succeeded.
pub open spec fn starter_writes_at(calls: Seq<SqlCall>, n: int, ps: Seq<int>) -> bool {
    &&& ps.len() == 11
    &&& forall|k: int| 0 <= k < 11 ==> n <= #[trigger] ps[k] < calls.len() && calls[ps[k]].outcome is Changed
    &&& forall|k1: int, k2: int| 0 <= k1 < k2 < 11 ==> #[trigger] ps[k1] < #[trigger] ps[k2]
    &&& forall|k: int| 0 <= k < 6 ==> calls[#[trigger] ps[k]].sql == prompt_service::INSERT_PROMPT_SQL@
    &&& calls[ps[6]].sql == playbook_service::INSERT_PLAYBOOK_SQL@
    &&& forall|k: int| 7 <= k < 11 ==> calls[#[trigger] ps[k]].sql == playbook_service::INSERT_STEP_SQL@
}

/// The starter kit's writes were made from position `n`.
pub open spec fn starter_writes(calls: Seq<SqlCall>, n: int) -> bool {
    exists|ps: Seq<int>| #[trigger] starter_writes_at(calls, n, ps)
}

/// Creates one starter prompt; when it succeeds, its row was inserted first.
fn seed_prompt(conn: &mut Db, request: CreatePromptRequest) -> (r: AppResult<crate::models::prompt::PromptWithVariants>)
    ensures
        sql::extends(old(conn).calls(), final(conn).calls()),
        r is Ok ==> sql::writes_ok(old(conn).calls(), final(conn).calls()),
        sql::all_met(old(conn).calls(), final(conn).calls()) ==> r is Ok,
        r is Ok ==> final(conn).calls().len() > old(conn).calls().len()
            && final(conn).calls()[old(conn).calls().len() as int].sql == prompt_service::INSERT_PROMPT_SQL@
            && final(conn).calls()[old(conn).calls().len() as int].outcome is Changed,
{
    prompt_service::create_prompt_tx(conn, request)
}

/// Creates the starter playbook; when it succeeds, its row was inserted.
fn seed_playbook(conn: &mut Db, title: &str, description: Option<&str>) -> (r: AppResult<crate::models::playbook::Playbook>)
    ensures
        sql::extends(old(conn).calls(), final(conn).calls()),
        r is Ok ==> sql::writes_ok(old(conn).calls(), final(conn).calls()),
        sql::all_met(old(conn).calls(), final(conn).calls()) ==> r is Ok,
        r is Ok ==> final(conn).calls().len() > old(conn).calls().len()
            && final(conn).calls()[old(conn).calls().len() as int].sql == playbook_service::INSERT_PLAYBOOK_SQL@
            && final(conn).calls()[old(conn).calls().len() as int].outcome is Changed,
{
    playbook_service::create_playbook_tx(conn, title, description)
}

/// Adds one step of the starter playbook; when it succeeds, its row was
/// inserted after the playbook check and the position read.
fn seed_step(
    conn: &mut Db,
    playbook_id: &str,
    prompt_id: Option<&str>,
    step_type: &str,
    instructions: Option<&str>,
    choice_prompt_ids: Option<Vec<String>>,
) -> (r: AppResult<crate::models::playbook::PlaybookStep>)
    ensures
        sql::extends(old(conn).calls(), final(conn).calls()),
        r is Ok ==> sql::writes_ok(old(conn).calls(), final(conn).calls()),
        sql::all_met(old(conn).calls(), final(conn).calls()) ==> r is Ok,
        r is Ok ==> final(conn).calls().len() > old(conn).calls().len() + 2
            && final(conn).calls()[old(conn).calls().len() + 2int].sql == playbook_service::INSERT_STEP_SQL@
            && final(conn).calls()[old(conn).calls().len() + 2int].outcome is Changed,
{
    playbook_service::add_step_tx(conn, playbook_id, prompt_id, step_type, instructions, choice_prompt_ids)
}

/// The starter prompts and the starter playbook: when it succeeds, six
/// prompts, one playbook and its four steps were written, in that order.
fn seed_starter_kit(conn: &mut Db) -> (r: AppResult<()>)
    ensures
        sql::extends(old(conn).calls(), final(conn).calls()),
        r is Ok ==> sql::writes_ok(old(conn).calls(), final(conn).calls()),
        sql::all_met(old(conn).calls(), final(conn).calls()) ==> r is Ok,
        r is Ok ==> starter_writes(final(conn).calls(), old(conn).calls().len() as int),
{
    // --- Prompt 1: Code Review Assistant ---
    let ghost p0 = conn.calls().len() as int;
    let _code_review = seed_prompt(
        conn,
        CreatePromptRequest {
            title: "Code Review Assistant".to_string(),
            description: Some("System prompt for thorough, constructive code reviews".to_string()),
            content: r#"Act as a senior engineer auditing code. Analyze the code I share with these priorities:

**Correctness**: Identify bugs, logic errors, off-by-one mistakes, and unhandled edge cases. Flag anything that could fail silently.

**Architecture**: Evaluate whether the code fits the broader system design. Call out tight coupling, missing abstractions, or responsibilities that belong elsewhere.

**Readability**: Suggest clearer naming, better function decomposition, and places where a comment would prevent future confusion. Code is read far more than it's written.

**Performance**: Note unnecessary allocations, N+1 queries, blocking calls in async contexts, or anything that won't scale.

**Security**: Watch for injection risks, improper input validation, leaked secrets, and auth gaps.

For each issue, explain *why* it matters and suggest a concrete fix. Distinguish between must-fix items and nice-to-have improvements. If the code is solid, say so — don't invent problems. Be direct but respectful."#.to_string(),
            variant_label: Some("Default".to_string()),
            tags: vec![
                "starter-kit".to_string(),
                "coding".to_string(),
                "model:llama".to_string(),
                "model:gemini".to_string(),
            ],
            is_favorite: true,
        },
    )?;
    let ghost a0 = conn.calls();

    // --- Prompt 2: Project Memory Primer ---
    let ghost p1 = conn.calls().len() as int;
    let project_memory = seed_prompt(
        conn,
        CreatePromptRequest {
            title: "Project Memory Primer".to_string(),
            description: Some("Session starter that orients the model with your project's mental map".to_string()),
            content: r#"You are resuming work on a project. Here is the current mental map:

**Project**: [Name and one-line description]
**Stack**: [Languages, frameworks, key dependencies]
**Architecture**: [High-level structure — monorepo? microservices? key modules?]

**Current state**:
- What works: [List stable, shipped features]
- What's in progress: [Active branches, half-built features]
- What's broken: [Known bugs, tech debt hotspots]

**Key decisions made**:
- [Decision 1 and why]
- [Decision 2 and why]

**Patterns to follow**:
- [Naming conventions, file organization, error handling approach]
- [Testing strategy, deployment process]

**Context from last session**:
- [What was accomplished]
- [What was left unfinished]
- [Any open questions or blockers]

Use this context to inform all responses. Ask clarifying questions if my request conflicts with the architecture or patterns described here. Don't repeat this back to me — just internalize it and work from it."#.to_string(),
            variant_label: Some("Default".to_string()),
            tags: vec![
                "starter-kit".to_string(),
                "role:primer".to_string(),
                "model:llama".to_string(),
                "model:gemini".to_string(),
            ],
            is_favorite: true,
        },
    )?;
    let ghost a1 = conn.calls();

    // --- Prompt 3: Session Operating Prompt (with two variants) ---
    let ghost p2 = conn.calls().len() as int;
    let session_op = seed_prompt(
        conn,
        CreatePromptRequest {
            title: "Session Operating Prompt".to_string(),
            description: Some("Sets the session into multi-mode exploration with adaptive thinking".to_string()),
            content: r#"This session runs in multi-mode exploration. Shift between these thinking modes as the conversation demands — don't wait for me to ask:

**Architectural mode**: Zoom out. Consider how this fits the system. Identify coupling, missing abstractions, and structural consequences of the current approach.

**Diagnostic mode**: Zoom in. Trace the problem methodically. Reproduce the reasoning, check assumptions, find the root cause before proposing fixes.

**Creative mode**: Explore lateral solutions. What if we reframed the problem? What would a different stack, pattern, or mental model suggest?

**Gemini collaboration**: When I mention insights from Gemini, integrate them into your analysis. Look for where Gemini's perspective challenges or strengthens your current recommendation. Flag genuine disagreements rather than smoothing them over — the tension is valuable.

Operating rules:
- Name which mode you're in when you shift
- Challenge my framing if it's leading somewhere unproductive
- Surface trade-offs explicitly — don't bury them in caveats
- If you're uncertain, say so and explain what information would resolve it
- Prefer working code over pseudocode, but flag when an implementation choice is debatable"#.to_string(),
            variant_label: Some("With Gemini".to_string()),
            tags: vec![
                "starter-kit".to_string(),
                "role:mode".to_string(),
                "model:llama".to_string(),
                "model:gemini".to_string(),
            ],
            is_favorite: true,
        },
    )?;
    let ghost a2 = conn.calls();

    // Add the Solo variant
    prompt_service::add_variant_tx(
        conn,
        session_op.prompt.id.as_str(),
        "Solo",
        r#"This session runs in multi-mode exploration. Shift between these thinking modes as the conversation demands — don't wait for me to ask:

**Architectural mode**: Zoom out. Consider how this fits the system. Identify coupling, missing abstractions, and structural consequences of the current approach.

**Diagnostic mode**: Zoom in. Trace the problem methodically. Reproduce the reasoning, check assumptions, find the root cause before proposing fixes.

**Creative mode**: Explore lateral solutions. What if we reframed the problem? What would a different stack, pattern, or mental model suggest?

**Self-critique mode**: After forming a recommendation, argue against it. What are the strongest objections? What would a senior engineer on the team push back on? Only present your conclusion after it survives this scrutiny.

Operating rules:
- Name which mode you're in when you shift
- Challenge my framing if it's leading somewhere unproductive
- Surface trade-offs explicitly — don't bury them in caveats
- If you're uncertain, say so and explain what information would resolve it
- Prefer working code over pseudocode, but flag when an implementation choice is debatable"#,
    )?;

    // --- Prompt 4: Founder Mode ---
    let ghost p3 = conn.calls().len() as int;
    let founder_mode = seed_prompt(
        conn,
        CreatePromptRequest {
            title: "Founder Mode".to_string(),
            description: Some("Step back from tactics and think about what the project could become".to_string()),
            content: r#"Shift into founder mode. Stop thinking about the current ticket and think about the project as a whole.

**Where are we?** Summarize the project's current state honestly — not the roadmap, the reality. What's actually built, what's half-built, what's duct-taped together.

**What's working?** What parts of this project have real momentum? Where does the architecture feel right, the UX feel natural, the code feel clean? Build on these.

**What's not working?** Where are we fighting the design? What keeps coming up as friction — repeated refactors, confusing flows, features that don't land? Be blunt.

**What could this become?** If we stepped back from the current plan and asked "what's the most valuable thing this project could be in 6 months?" — what's the answer? Think beyond the feature list.

**What should we stop doing?** Every project accumulates scope that made sense at the time but doesn't anymore. What should we kill, simplify, or defer indefinitely?

**What's the one thing?** If we could only ship one thing next, what would create the most leverage? Not the most urgent — the most important.

Don't be precious about what's already built. Sunk cost is not a reason to keep going. Think like someone who just acquired this project and is deciding what to do with it."#.to_string(),
            variant_label: Some("Default".to_string()),
            tags: vec![
                "starter-kit".to_string(),
                "role:mode".to_string(),
                "model:llama".to_string(),
                "model:gemini".to_string(),
            ],
            is_favorite: false,
        },
    )?;
    let ghost a3 = conn.calls();

    // --- Prompt 5: Session Knowledge Transfer ---
    let ghost p4 = conn.calls().len() as int;
    let knowledge_transfer = seed_prompt(
        conn,
        CreatePromptRequest {
            title: "Session Knowledge Transfer".to_string(),
            description: Some("End-of-session handoff that produces a concise map for the next session".to_string()),
            content: r#"This session is ending. Produce a knowledge transfer document that will orient the next session (which may be a different model or a fresh context window).

**Session summary**: What did we work on? What was the goal and did we achieve it?

**Decisions made**:
- [Decision]: [Rationale] — flag if this was a close call or if new information could change it

**Code changes**:
- [File/module]: [What changed and why]
- Note any changes that are incomplete or need follow-up

**Problems encountered**:
- [Problem]: [How we resolved it, or why it's still open]

**Architecture insights**: Any structural observations that emerged — patterns that worked, abstractions that should be extracted, coupling that needs attention.

**Open threads**:
- [Question or task]: [Current thinking, what's needed to resolve]

**Recommended next steps** (in priority order):
1. [Most important next action]
2. [Second priority]
3. [Third priority]

**Warnings**: Anything the next session should watch out for — fragile code, assumptions that might not hold, deadlines, dependencies.

Keep it concise. This is a handoff document, not a narrative. Optimize for someone (or something) that needs to get up to speed in 30 seconds."#.to_string(),
            variant_label: Some("Default".to_string()),
            tags: vec![
                "starter-kit".to_string(),
                "role:closer".to_string(),
                "model:llama".to_string(),
                "model:gemini".to_string(),
            ],
            is_favorite: true,
        },
    )?;
    let ghost a4 = conn.calls();

    // --- Prompt 6: Welcome to Cadence ---
    let ghost p5 = conn.calls().len() as int;
    let _welcome = seed_prompt(
        conn,
        CreatePromptRequest {
            title: "Welcome to Cadence".to_string(),
            description: Some("A quick tour of how Cadence works".to_string()),
            content: r#"Welcome to Cadence — your prompt library.

This isn't just a note-taking app. Cadence is built for developers who use AI models daily and want to treat their prompts like reusable tools, not throwaway text.

**How it works**:

Each prompt lives as a card with a title, content, and tags. Copy any prompt to your clipboard with one click, then paste it into your AI session.

**Tags** are how you organize and find things. Use them freely:
- `model:llama`, `model:gemini` — mark which models a prompt works well with
- `role:primer`, `role:mode`, `role:closer` — categorize by function in your workflow
- `coding`, `writing`, `planning` — topic tags, whatever makes sense for you

**Search** (`Cmd+Shift+P`) opens the floating search window. It searches titles, content, and tags — so well-tagged prompts surface instantly.

**Variants** let one prompt hold multiple versions. The "Session Operating Prompt" in your starter kit has two variants: one for collaborative sessions with Gemini, one for solo work. Switch between them without duplicating the prompt.

**Playbooks** chain prompts into workflows. The "AI Dev Session Workflow" playbook walks you through a complete coding session — from orienting the model, to choosing a focus, to capturing knowledge at the end.

**Favorites** (star icon) pin prompts to the top of your library for fast access.

Start by exploring the starter prompts, then edit them to match your projects. Delete what you don't need, duplicate what you do. This is your library — make it yours."#.to_string(),
            variant_label: Some("Default".to_string()),
            tags: vec![
                "starter-kit".to_string(),
                "getting-started".to_string(),
            ],
            is_favorite: true,
        },
    )?;
    let ghost a5 = conn.calls();

    // --- Starter Playbook: AI Dev Session Workflow ---
    let ghost p6 = conn.calls().len() as int;
    let playbook = seed_playbook(
        conn,
        "AI Dev Session Workflow",
        Some("A complete AI-assisted development session from orientation to knowledge capture"),
    )?;
    let ghost a6 = conn.calls();

    // Step 1: Project Memory Primer
    let ghost p7 = conn.calls().len() as int;
    seed_step(
        conn,
        playbook.id.as_str(),
        Some(project_memory.prompt.id.as_str()),
        "single",
        Some("Start here. This orients the model with your project's architecture and codebase."),
        None,
    )?;
    let ghost a7 = conn.calls();

    // Step 2: Session Operating Prompt
    let ghost p8 = conn.calls().len() as int;
    seed_step(
        conn,
        playbook.id.as_str(),
        Some(session_op.prompt.id.as_str()),
        "single",
        Some("Sets the session mode. The model will shift between architectural, diagnostic, and creative thinking."),
        None,
    )?;
    let ghost a8 = conn.calls();

    // Step 3: Founder Mode (any mode prompt)
    let ghost p9 = conn.calls().len() as int;
    seed_step(
        conn,
        playbook.id.as_str(),
        Some(founder_mode.prompt.id.as_str()),
        "single",
        Some("Choose a focus area for this session. You can swap this step with any mode prompt from your library."),
        None,
    )?;
    let ghost a9 = conn.calls();

    // Step 4: Session Knowledge Transfer
    let ghost p10 = conn.calls().len() as int;
    seed_step(
        conn,
        playbook.id.as_str(),
        Some(knowledge_transfer.prompt.id.as_str()),
        "single",
        Some("Always end with this. It captures insights and creates a handoff for your next session."),
        None,
    )?;
    let ghost a10 = conn.calls();

    proof {
        assert(conn.calls()[p0 + 0] == a0[p0 + 0]);
        assert(conn.calls()[p1 + 0] == a1[p1 + 0]);
        assert(conn.calls()[p2 + 0] == a2[p2 + 0]);
        assert(conn.calls()[p3 + 0] == a3[p3 + 0]);
        assert(conn.calls()[p4 + 0] == a4[p4 + 0]);
        assert(conn.calls()[p5 + 0] == a5[p5 + 0]);
        assert(conn.calls()[p6 + 0] == a6[p6 + 0]);
        assert(conn.calls()[p7 + 2] == a7[p7 + 2]);
        assert(conn.calls()[p8 + 2] == a8[p8 + 2]);
        assert(conn.calls()[p9 + 2] == a9[p9 + 2]);
        assert(conn.calls()[p10 + 2] == a10[p10 + 2]);
        let ps: Seq<int> = seq![p0, p1, p2, p3, p4, p5, p6, p7 + 2, p8 + 2, p9 + 2, p10 + 2];
        assert(starter_writes_at(conn.calls(), old(conn).calls().len() as int, ps));
    }
    Ok(())
}

}
