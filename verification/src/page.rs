//! The administrative page that lists the latest saved replays and the
//! open multiplayer lobbies.

use vstd::prelude::*;
use crate::protocol::{MultiplayerLobbyRoom, ReplayEntry};
use crate::text::{chars_of, extend_chars, extend_str, string_of};
use crate::numtext::{decimal, decimal_chars, push_decimal};

verus! {

/// A saved replay together with the account that owns it.
#[derive(Clone, Debug)]
pub struct ReplayEntryWithAccount {
    pub account_key: String,
    pub entry: ReplayEntry,
}

/// How many replays the page lists.
pub const ALL_REPLAYS_PAGE_LIMIT: u64 = 500;

pub const PAGE_HEAD: &'static str = "<!doctype html>\n<html lang=\"en\">\n<head>\n<meta charset=\"utf-8\">\n<meta name=\"viewport\" content=\"width=device-width, initial-scale=1\">\n<title>Replay Logs</title>\n<style>\n:root { color-scheme: dark; font-family: Inter, ui-sans-serif, system-ui, -apple-system, BlinkMacSystemFont, \"Segoe UI\", sans-serif; background: #111827; color: #e5e7eb; }\nbody { margin: 0; padding: 24px; background: #111827; }\nmain { max-width: 1180px; margin: 0 auto; }\nheader { display: flex; align-items: center; justify-content: space-between; gap: 16px; margin-bottom: 18px; }\nh1 { margin: 0; font-size: 22px; font-weight: 800; }\nh2 { margin: 0 0 12px; font-size: 16px; font-weight: 800; }\n.meta { color: #9ca3af; font-size: 13px; }\n.header-copy { display: flex; flex-direction: column; gap: 4px; }\n.view-toggle { border: 1px solid #374151; border-radius: 6px; background: #1f2937; color: #e5e7eb; cursor: pointer; font: inherit; font-size: 13px; font-weight: 700; padding: 8px 12px; }\n.view-toggle:hover { background: #374151; }\n.panel[hidden] { display: none; }\n.error { margin-bottom: 16px; border: 1px solid #7f1d1d; border-radius: 6px; background: #3f1218; color: #fecaca; padding: 10px 12px; }\ntable { width: 100%; border-collapse: collapse; overflow: hidden; border: 1px solid #374151; border-radius: 6px; background: #16213e; }\n.summary-table { max-width: 360px; margin-bottom: 16px; }\nth, td { padding: 8px 10px; border-bottom: 1px solid #283247; text-align: left; font-size: 13px; vertical-align: top; }\nth { position: sticky; top: 0; background: #0f172a; color: #cbd5e1; font-size: 11px; text-transform: uppercase; letter-spacing: .04em; }\ntr:last-child td { border-bottom: 0; }\ntd.mono { font-family: ui-monospace, SFMono-Regular, Menlo, Consolas, monospace; font-size: 12px; color: #cbd5e1; }\ntd.number { text-align: right; }\na { color: #93c5fd; text-decoration: none; font-weight: 700; }\na:hover { color: #bfdbfe; text-decoration: underline; }\n.empty { border: 1px dashed #374151; border-radius: 6px; color: #9ca3af; padding: 18px; background: #16213e; }\n@media (max-width: 760px) { body { padding: 12px; } table { display: block; overflow-x: auto; } header { align-items: flex-start; flex-direction: column; } .meta { margin-top: 6px; } }\n</style>\n</head>\n<body>\n<main>\n";

pub const PAGE_HEADER_START: &'static str = "<header><div class=\"header-copy\"><h1>Replay Logs</h1><div class=\"meta\">Latest ";

pub const PAGE_HEADER_END: &'static str = " saved games</div></div><button id=\"all-view-toggle\" class=\"view-toggle\" type=\"button\" aria-controls=\"replay-logs-section lobbies-section\" aria-pressed=\"false\">Show Lobbies</button></header>\n";

pub const REPLAY_SECTION_START: &'static str = "<section id=\"replay-logs-section\" class=\"panel\">\n";

pub const NO_REPLAYS: &'static str = "<div class=\"empty\">No replay logs found.</div>\n";

pub const REPLAY_TABLE_START: &'static str = "<table>\n<thead><tr><th>Saved</th><th>Result</th><th>Actions</th><th>Account</th><th>Replay ID</th><th>Open</th></tr></thead>\n<tbody>\n";

pub const TABLE_END: &'static str = "</tbody>\n</table>\n";

pub const LOBBY_SECTION_START: &'static str = "</section>\n<section id=\"lobbies-section\" class=\"panel\" hidden>\n<h2>Lobbies</h2>\n";

pub const LOBBY_SUMMARY_START: &'static str = "<table class=\"summary-table\">\n<thead><tr><th>Metric</th><th>Count</th></tr></thead>\n<tbody><tr><td>Open lobbies</td><td class=\"number\">";

pub const LOBBY_SUMMARY_END: &'static str = "</td></tr></tbody>\n</table>\n";

pub const NO_LOBBIES: &'static str = "<div class=\"empty\">No open lobbies found.</div>\n";

pub const LOBBY_TABLE_START: &'static str = "<table>\n<thead><tr><th>Code</th><th>Status</th><th>Occupied</th><th>Connected</th><th>Spectators</th><th>Time Control</th><th>Last Activity</th><th>Open</th></tr></thead>\n<tbody>\n";

pub const PAGE_TAIL: &'static str = "</main>\n<script>\nconst toggle = document.getElementById('all-view-toggle');\nconst replaySection = document.getElementById('replay-logs-section');\nconst lobbiesSection = document.getElementById('lobbies-section');\nfunction setAllView(showLobbies) {\n  replaySection.hidden = showLobbies;\n  lobbiesSection.hidden = !showLobbies;\n  toggle.textContent = showLobbies ? 'Show Replay Logs' : 'Show Lobbies';\n  toggle.setAttribute('aria-pressed', showLobbies ? 'true' : 'false');\n}\ntoggle?.addEventListener('click', () => setAllView(lobbiesSection.hidden));\nfor (const el of document.querySelectorAll('time[data-ms]')) {\n  const ms = Number(el.dataset.ms);\n  if (Number.isFinite(ms)) {\n    el.textContent = new Date(ms).toLocaleString();\n    el.title = String(ms);\n  }\n}\n</script>\n</body>\n</html>\n";

// ── HTML escaping ───────────────────────────────────────────────────

pub open spec fn escape_char(c: char) -> Seq<char> {
    if c == '&' {
        "&amp;"@
    } else if c == '<' {
        "&lt;"@
    } else if c == '>' {
        "&gt;"@
    } else if c == '"' {
        "&quot;"@
    } else if c == '\'' {
        "&#39;"@
    } else {
        seq![c]
    }
}

/// The text with `& < > " '` replaced by character references.
pub open spec fn escape(s: Seq<char>) -> Seq<char>
    decreases s.len(),
{
    if s.len() == 0 {
        Seq::empty()
    } else {
        escape(s.drop_last()) + escape_char(s.last())
    }
}

pub fn push_escaped(out: &mut Vec<char>, value: &str)
    ensures
        final(out)@ == old(out)@ + escape(value@),
{
    let v = chars_of(value);
    let mut i: usize = 0;
    while i < v.len()
        invariant
            i <= v.len(),
            out@ == old(out)@ + escape(v@.subrange(0, i as int)),
        decreases v.len() - i,
    {
        let ch = v[i];
        proof {
            assert(v@.subrange(0, i + 1).drop_last() =~= v@.subrange(0, i as int));
        }
        let ghost before = out@;
        if ch == '&' {
            extend_str(out, "&amp;");
        } else if ch == '<' {
            extend_str(out, "&lt;");
        } else if ch == '>' {
            extend_str(out, "&gt;");
        } else if ch == '"' {
            extend_str(out, "&quot;");
        } else if ch == '\'' {
            extend_str(out, "&#39;");
        } else {
            out.push(ch);
            assert(out@ =~= before + seq![ch]);
        }
        assert(out@ =~= old(out)@ + escape(v@.subrange(0, i + 1)));
        i += 1;
    }
    assert(v@.subrange(0, v.len() as int) =~= v@);
}

pub fn escape_html(value: &str) -> (r: String)
    ensures
        r@ == escape(value@),
{
    let mut out: Vec<char> = Vec::new();
    push_escaped(&mut out, value);
    assert(out@ =~= escape(value@));
    string_of(&out)
}

// ── labels ──────────────────────────────────────────────────────────

pub open spec fn spec_time_control_label(minutes: Option<u32>, increment: Option<u32>) -> Seq<char> {
    match (minutes, increment) {
        (Some(m), Some(i)) => decimal(m as nat) + "+"@ + decimal(i as nat),
        (Some(m), None) => decimal(m as nat) + " min"@,
        (None, Some(i)) => "+"@ + decimal(i as nat) + "s"@,
        (None, None) => "Untimed"@,
    }
}

pub fn lobby_time_control_label(lobby: &MultiplayerLobbyRoom) -> (r: String)
    ensures
        r@ == spec_time_control_label(lobby.time_minutes, lobby.increment_seconds),
{
    let mut out: Vec<char> = Vec::new();
    match (lobby.time_minutes, lobby.increment_seconds) {
        (Some(m), Some(i)) => {
            push_decimal(&mut out, m as u64);
            extend_str(&mut out, "+");
            push_decimal(&mut out, i as u64);
        },
        (Some(m), None) => {
            push_decimal(&mut out, m as u64);
            extend_str(&mut out, " min");
        },
        (None, Some(i)) => {
            extend_str(&mut out, "+");
            push_decimal(&mut out, i as u64);
            extend_str(&mut out, "s");
        },
        (None, None) => {
            extend_str(&mut out, "Untimed");
        },
    }
    assert(out@ =~= spec_time_control_label(lobby.time_minutes, lobby.increment_seconds));
    string_of(&out)
}

/// A board fingerprint for logs: its decimal value, or `none`.
pub fn format_board_fingerprint(fingerprint: Option<u64>) -> (r: String)
    ensures
        r@ == (match fingerprint {
            Some(v) => decimal(v as nat),
            None => "none"@,
        }),
{
    match fingerprint {
        Some(v) => crate::numtext::decimal_string(v),
        None => "none".to_string(),
    }
}

// ── the page ────────────────────────────────────────────────────────

pub open spec fn replay_row(row: ReplayEntryWithAccount) -> Seq<char> {
    let e = row.entry;
    "<tr><td><time data-ms=\""@ + decimal(e.saved_at_ms as nat) + "\">"@ + decimal(
        e.saved_at_ms as nat,
    ) + "</time></td><td>"@ + escape(e.result@) + "</td><td class=\"number\">"@ + decimal(
        e.action_count as nat,
    ) + "</td><td class=\"mono\">"@ + escape(row.account_key@) + "</td><td class=\"mono\">"@
        + escape(e.id@) + "</td><td><a href=\"/r/"@ + escape(e.share_slug@)
        + "\">Open</a></td></tr>\n"@
}

pub open spec fn replay_rows(rows: Seq<ReplayEntryWithAccount>) -> Seq<char>
    decreases rows.len(),
{
    if rows.len() == 0 {
        Seq::empty()
    } else {
        replay_rows(rows.drop_last()) + replay_row(rows.last())
    }
}

pub open spec fn lobby_row(l: MultiplayerLobbyRoom) -> Seq<char> {
    "<tr><td class=\"mono\">"@ + escape(l.code@) + "</td><td>"@ + escape(l.status@)
        + "</td><td class=\"number\">"@ + decimal(l.occupied as nat) + "</td><td class=\"number\">"@
        + decimal(l.connected as nat) + "</td><td class=\"number\">"@ + decimal(
        l.spectator_count as nat,
    ) + "</td><td>"@ + escape(spec_time_control_label(l.time_minutes, l.increment_seconds))
        + "</td><td><time data-ms=\""@ + decimal(l.last_activity_ms as nat) + "\">"@ + decimal(
        l.last_activity_ms as nat,
    ) + "</time></td><td><a href=\"/?room="@ + escape(l.code@) + "\">Open</a></td></tr>\n"@
}

pub open spec fn lobby_rows(lobbies: Seq<MultiplayerLobbyRoom>) -> Seq<char>
    decreases lobbies.len(),
{
    if lobbies.len() == 0 {
        Seq::empty()
    } else {
        lobby_rows(lobbies.drop_last()) + lobby_row(lobbies.last())
    }
}

pub open spec fn replay_section(rows: Seq<ReplayEntryWithAccount>, error: Option<Seq<char>>) -> Seq<
    char,
> {
    REPLAY_SECTION_START@ + (match error {
        Some(e) => "<div class=\"error\">"@ + escape(e) + "</div>\n"@,
        None => Seq::empty(),
    }) + (if rows.len() == 0 {
        NO_REPLAYS@
    } else {
        REPLAY_TABLE_START@ + replay_rows(rows) + TABLE_END@
    })
}

pub open spec fn lobby_section(lobbies: Seq<MultiplayerLobbyRoom>) -> Seq<char> {
    LOBBY_SECTION_START@ + LOBBY_SUMMARY_START@ + decimal(lobbies.len()) + LOBBY_SUMMARY_END@ + (
    if lobbies.len() == 0 {
        NO_LOBBIES@
    } else {
        LOBBY_TABLE_START@ + lobby_rows(lobbies) + TABLE_END@
    }) + "</section>\n"@
}

/// The whole page: header, the replay section (with the error, if any)
/// and the initially hidden lobby section.
pub open spec fn spec_all_page(
    rows: Seq<ReplayEntryWithAccount>,
    lobbies: Seq<MultiplayerLobbyRoom>,
    error: Option<Seq<char>>,
) -> Seq<char> {
    PAGE_HEAD@ + PAGE_HEADER_START@ + decimal(ALL_REPLAYS_PAGE_LIMIT as nat) + PAGE_HEADER_END@
        + replay_section(rows, error) + lobby_section(lobbies) + PAGE_TAIL@
}

fn push_replay_row(out: &mut Vec<char>, row: &ReplayEntryWithAccount)
    ensures
        final(out)@ == old(out)@ + replay_row(*row),
{
    let e = &row.entry;
    extend_str(out, "<tr><td><time data-ms=\"");
    push_decimal(out, e.saved_at_ms);
    extend_str(out, "\">");
    push_decimal(out, e.saved_at_ms);
    extend_str(out, "</time></td><td>");
    push_escaped(out, e.result.as_str());
    extend_str(out, "</td><td class=\"number\">");
    push_decimal(out, e.action_count as u64);
    extend_str(out, "</td><td class=\"mono\">");
    push_escaped(out, row.account_key.as_str());
    extend_str(out, "</td><td class=\"mono\">");
    push_escaped(out, e.id.as_str());
    extend_str(out, "</td><td><a href=\"/r/");
    push_escaped(out, e.share_slug.as_str());
    extend_str(out, "\">Open</a></td></tr>\n");
    assert(out@ =~= old(out)@ + replay_row(*row));
}

fn push_lobby_row(out: &mut Vec<char>, lobby: &MultiplayerLobbyRoom)
    ensures
        final(out)@ == old(out)@ + lobby_row(*lobby),
{
    extend_str(out, "<tr><td class=\"mono\">");
    push_escaped(out, lobby.code.as_str());
    extend_str(out, "</td><td>");
    push_escaped(out, lobby.status.as_str());
    extend_str(out, "</td><td class=\"number\">");
    push_decimal(out, lobby.occupied as u64);
    extend_str(out, "</td><td class=\"number\">");
    push_decimal(out, lobby.connected as u64);
    extend_str(out, "</td><td class=\"number\">");
    push_decimal(out, lobby.spectator_count as u64);
    extend_str(out, "</td><td>");
    let label = lobby_time_control_label(lobby);
    push_escaped(out, label.as_str());
    extend_str(out, "</td><td><time data-ms=\"");
    push_decimal(out, lobby.last_activity_ms);
    extend_str(out, "\">");
    push_decimal(out, lobby.last_activity_ms);
    extend_str(out, "</time></td><td><a href=\"/?room=");
    push_escaped(out, lobby.code.as_str());
    extend_str(out, "\">Open</a></td></tr>\n");
    assert(out@ =~= old(out)@ + lobby_row(*lobby));
}

fn push_replay_section(out: &mut Vec<char>, rows: &[ReplayEntryWithAccount], error: Option<&str>)
    ensures
        final(out)@ == old(out)@ + replay_section(rows@, crate::identity::opt_str_view(error)),
{
    let ghost start = out@;
    extend_str(out, REPLAY_SECTION_START);
    match error {
        Some(e) => {
            extend_str(out, "<div class=\"error\">");
            push_escaped(out, e);
            extend_str(out, "</div>\n");
        },
        None => {},
    }
    let ghost mid = out@;
    assert(mid =~= start + REPLAY_SECTION_START@ + (match crate::identity::opt_str_view(error) {
        Some(e) => "<div class=\"error\">"@ + escape(e) + "</div>\n"@,
        None => Seq::empty(),
    }));
    if rows.len() == 0 {
        extend_str(out, NO_REPLAYS);
    } else {
        extend_str(out, REPLAY_TABLE_START);
        let mut i: usize = 0;
        while i < rows.len()
            invariant
                i <= rows@.len(),
                out@ == mid + REPLAY_TABLE_START@ + replay_rows(rows@.subrange(0, i as int)),
            decreases rows@.len() - i,
        {
            proof {
                assert(rows@.subrange(0, i + 1).drop_last() =~= rows@.subrange(0, i as int));
            }
            push_replay_row(out, &rows[i]);
            i += 1;
            assert(out@ =~= mid + REPLAY_TABLE_START@ + replay_rows(rows@.subrange(0, i as int)));
        }
        assert(rows@.subrange(0, rows@.len() as int) =~= rows@);
        extend_str(out, TABLE_END);
    }
    assert(out@ =~= start + replay_section(rows@, crate::identity::opt_str_view(error)));
}

fn push_lobby_section(out: &mut Vec<char>, lobbies: &[MultiplayerLobbyRoom])
    ensures
        final(out)@ == old(out)@ + lobby_section(lobbies@),
{
    let ghost start = out@;
    extend_str(out, LOBBY_SECTION_START);
    extend_str(out, LOBBY_SUMMARY_START);
    push_decimal(out, lobbies.len() as u64);
    extend_str(out, LOBBY_SUMMARY_END);
    let ghost mid = out@;
    if lobbies.len() == 0 {
        extend_str(out, NO_LOBBIES);
    } else {
        extend_str(out, LOBBY_TABLE_START);
        let mut i: usize = 0;
        while i < lobbies.len()
            invariant
                i <= lobbies@.len(),
                out@ == mid + LOBBY_TABLE_START@ + lobby_rows(lobbies@.subrange(0, i as int)),
            decreases lobbies@.len() - i,
        {
            proof {
                assert(lobbies@.subrange(0, i + 1).drop_last() =~= lobbies@.subrange(0, i as int));
            }
            push_lobby_row(out, &lobbies[i]);
            i += 1;
            assert(out@ =~= mid + LOBBY_TABLE_START@ + lobby_rows(lobbies@.subrange(0, i as int)));
        }
        assert(lobbies@.subrange(0, lobbies@.len() as int) =~= lobbies@);
        extend_str(out, TABLE_END);
    }
    extend_str(out, "</section>\n");
    assert(out@ =~= start + lobby_section(lobbies@));
}

/// Renders the page for the given replays, lobbies and storage error.
pub fn render_all_page(
    rows: &[ReplayEntryWithAccount],
    lobbies: &[MultiplayerLobbyRoom],
    error: Option<&str>,
) -> (html: String)
    ensures
        html@ == spec_all_page(rows@, lobbies@, crate::identity::opt_str_view(error)),
{
    let mut out: Vec<char> = Vec::new();
    extend_str(&mut out, PAGE_HEAD);
    extend_str(&mut out, PAGE_HEADER_START);
    push_decimal(&mut out, ALL_REPLAYS_PAGE_LIMIT);
    extend_str(&mut out, PAGE_HEADER_END);
    push_replay_section(&mut out, rows, error);
    push_lobby_section(&mut out, lobbies);
    extend_str(&mut out, PAGE_TAIL);
    assert(out@ =~= spec_all_page(rows@, lobbies@, crate::identity::opt_str_view(error)));
    string_of(&out)
}

} // verus!
