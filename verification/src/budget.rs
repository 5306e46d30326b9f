//! Search budgets: clamping client requests to safe limits, the budget a
//! bot move runs with, and when to push live search progress.

use vstd::prelude::*;
use crate::protocol::SearchBudget;

verus! {

pub const MAX_PV_DEPTH_BUDGET: u32 = 30;

pub const PV_DEPTH_SIM_SAFETY_CAP: u32 = 100_000;

/// Send a progress snapshot every this many fresh simulations...
pub const PROGRESS_INTERVAL: u32 = 100;

/// ...or at least this often, in milliseconds.
pub const SEARCH_PROGRESS_KEEPALIVE_MS: u64 = 5_000;

/// Simulations of the compact analysis bar search in multiplayer rooms.
pub const MULTIPLAYER_ANALYSIS_SIMS: u32 = 200;

pub const MANAGED_BOT_SEARCH_DEPTH: u32 = 9;

pub const MANAGED_BOT_SEARCH_SIMULATIONS: u32 = 550;

/// A sanitized budget and the number of simulations it allows at most.
#[derive(Clone, Copy, Debug, PartialEq, Eq)]
pub struct ActiveSearchBudget {
    pub budget: SearchBudget,
    pub sims_total: u32,
}

pub open spec fn clamp(v: u32, lo: u32, hi: u32) -> u32 {
    if v < lo {
        lo
    } else if v > hi {
        hi
    } else {
        v
    }
}

/// Depth budgets are clamped to `1..=30` and their simulation caps to
/// `1..=100_000`; simulation budgets pass unchanged.
pub open spec fn spec_sanitize_search_budget(budget: SearchBudget) -> SearchBudget {
    match budget {
        SearchBudget::Simulations { value } => SearchBudget::Simulations { value },
        SearchBudget::PvDepth { value, simulations } => SearchBudget::PvDepth {
            value: clamp(value, 1, MAX_PV_DEPTH_BUDGET),
            simulations: match simulations {
                Some(s) => Some(clamp(s, 1, PV_DEPTH_SIM_SAFETY_CAP)),
                None => None,
            },
        },
    }
}

/// The simulations a (sanitized) budget allows: its value for simulation
/// budgets, its cap (by default the safety cap) for depth budgets.
pub open spec fn spec_budget_sims_total(budget: SearchBudget) -> u32 {
    match budget {
        SearchBudget::Simulations { value } => value,
        SearchBudget::PvDepth { simulations, .. } => match simulations {
            Some(s) => s,
            None => PV_DEPTH_SIM_SAFETY_CAP,
        },
    }
}

fn clamp_u32(v: u32, lo: u32, hi: u32) -> (r: u32)
    requires
        lo <= hi,
    ensures
        r == clamp(v, lo, hi),
{
    if v < lo {
        lo
    } else if v > hi {
        hi
    } else {
        v
    }
}

pub fn sanitize_search_budget(budget: SearchBudget) -> (r: SearchBudget)
    ensures
        r == spec_sanitize_search_budget(budget),
{
    match budget {
        SearchBudget::Simulations { value } => SearchBudget::simulations(value),
        SearchBudget::PvDepth { value, simulations } => SearchBudget::PvDepth {
            value: clamp_u32(value, 1, MAX_PV_DEPTH_BUDGET),
            simulations: match simulations {
                Some(s) => Some(clamp_u32(s, 1, PV_DEPTH_SIM_SAFETY_CAP)),
                None => None,
            },
        },
    }
}

/// Sanitizing only moves what lies outside the safe limits: a depth in
/// `1..=30` and a simulation cap in `1..=100_000` are kept as asked, one
/// below a limit is raised to it and one above is lowered to it; a missing
/// cap stays missing and simulation budgets pass unchanged. The search
/// then allows exactly the (sanitized) cap, or the safety cap without one.
pub proof fn lemma_sanitize_keeps_requests_in_range(budget: SearchBudget)
    ensures
        budget is Simulations ==> spec_sanitize_search_budget(budget) == budget
            && spec_budget_sims_total(spec_sanitize_search_budget(budget)) == budget->Simulations_value,
        budget is PvDepth ==> ({
            let value = budget->PvDepth_value;
            let sims = budget->PvDepth_simulations;
            let r = spec_sanitize_search_budget(budget);
            &&& r is PvDepth
            &&& 1 <= value <= 30 ==> r->PvDepth_value == value
            &&& value < 1 ==> r->PvDepth_value == 1
            &&& value > 30 ==> r->PvDepth_value == 30
            &&& sims is None ==> r->PvDepth_simulations is None && spec_budget_sims_total(r) == 100_000
            &&& sims is Some ==> r->PvDepth_simulations is Some
            &&& sims is Some && 1 <= sims->0 <= 100_000 ==> r->PvDepth_simulations == sims
                && spec_budget_sims_total(r) == sims->0
            &&& sims == Some(0u32) ==> r->PvDepth_simulations == Some(1u32)
            &&& sims is Some && sims->0 > 100_000 ==> r->PvDepth_simulations == Some(100_000u32)
        }),
{
}

/// The budget a search runs with once the request is sanitized.
pub fn active_search_budget(budget: SearchBudget) -> (r: ActiveSearchBudget)
    ensures
        r.budget == spec_sanitize_search_budget(budget),
        r.sims_total == spec_budget_sims_total(r.budget),
{
    let budget = sanitize_search_budget(budget);
    let sims_total = match budget {
        SearchBudget::Simulations { value } => value,
        SearchBudget::PvDepth { simulations, .. } => match simulations {
            Some(s) => s,
            None => PV_DEPTH_SIM_SAFETY_CAP,
        },
    };
    ActiveSearchBudget { budget, sims_total }
}

/// The budget of a bot move: the explicit budget, else a simulation budget
/// of the requested count, else of the player's configured count.
pub fn bot_move_budget(
    budget: Option<SearchBudget>,
    simulations: Option<u32>,
    configured_simulations: u32,
) -> (r: SearchBudget)
    ensures
        r == (match budget {
            Some(b) => b,
            None => SearchBudget::Simulations {
                value: match simulations {
                    Some(s) => s,
                    None => configured_simulations,
                },
            },
        }),
{
    match budget {
        Some(b) => b,
        None => SearchBudget::simulations(
            match simulations {
                Some(s) => s,
                None => configured_simulations,
            },
        ),
    }
}

/// The budget of the managed lobby bot: depth nine, at most 550 simulations.
pub fn managed_bot_search_budget() -> (r: SearchBudget)
    ensures
        r == (SearchBudget::PvDepth {
            value: MANAGED_BOT_SEARCH_DEPTH,
            simulations: Some(MANAGED_BOT_SEARCH_SIMULATIONS),
        }),
{
    SearchBudget::pv_depth_with_simulations(
        MANAGED_BOT_SEARCH_DEPTH,
        MANAGED_BOT_SEARCH_SIMULATIONS,
    )
}

/// Whether to push a live progress snapshot: after another hundred fresh
/// simulations, or when five seconds passed since the last one.
/// `elapsed_since_last_send_ms` is the elapsed time in whole milliseconds.
pub fn should_send_search_progress(
    fresh_simulations: u32,
    last_progress_sent: u32,
    elapsed_since_last_send_ms: u128,
) -> (r: bool)
    ensures
        r == (fresh_simulations >= (if last_progress_sent + PROGRESS_INTERVAL > u32::MAX {
            u32::MAX as int
        } else {
            last_progress_sent + PROGRESS_INTERVAL
        }) || elapsed_since_last_send_ms >= SEARCH_PROGRESS_KEEPALIVE_MS),
{
    fresh_simulations >= last_progress_sent.saturating_add(PROGRESS_INTERVAL)
        || elapsed_since_last_send_ms >= SEARCH_PROGRESS_KEEPALIVE_MS as u128
}

// ── laws ────────────────────────────────────────────────────────────

/// Sanitizing is idempotent.
pub proof fn lemma_sanitize_idempotent(budget: SearchBudget)
    ensures
        spec_sanitize_search_budget(spec_sanitize_search_budget(budget))
            == spec_sanitize_search_budget(budget),
{
}

/// A sanitized depth budget asks for a depth in `1..=30` and at most the
/// safety cap of simulations.
pub proof fn lemma_sanitized_depth_in_range(budget: SearchBudget)
    ensures
        spec_sanitize_search_budget(budget) matches SearchBudget::PvDepth { value, simulations }
            ==> 1 <= value <= MAX_PV_DEPTH_BUDGET && (simulations matches Some(s) ==> 1 <= s
            <= PV_DEPTH_SIM_SAFETY_CAP),
        spec_sanitize_search_budget(budget) is PvDepth ==> 1 <= spec_budget_sims_total(
            spec_sanitize_search_budget(budget),
        ) <= PV_DEPTH_SIM_SAFETY_CAP,
{
}

} // verus!
