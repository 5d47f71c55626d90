//! The status reporter's snapshot text: a status label, the iteration
//! position, and the time left in each span of the current cycle.

use vstd::prelude::*;

use crate::session::{config_valid, spec_cycle_index, spec_offset, SessionConfig, SessionModel};
use crate::timefmt::{as_time, spec_dec_digits, spec_mmss, u64_to_dec};

verus! {

/// The snapshot layout: a label, the iteration position, and the
/// focus and rest spans, each as time left over configured length.
pub open spec fn spec_status_text(
    label: Seq<char>,
    iter_idx: int,
    iter_total: int,
    focus_left: int,
    focus_total: int,
    rest_left: int,
    rest_total: int,
) -> Seq<char> {
    "status: "@ + label + "\r\niteration: "@ + spec_dec_digits(iter_idx) + "/"@
        + spec_dec_digits(iter_total) + "\r\nfocus: "@ + spec_mmss(focus_left) + "/"@ + spec_mmss(
        focus_total,
    ) + "\r\nrest: "@ + spec_mmss(rest_left) + "/"@ + spec_mmss(rest_total) + "\r\n"@
}

/// Builds the snapshot text exactly as `spec_status_text` lays it out.
pub fn build_status(
    label: &str,
    iter_idx: u64,
    iter_total: u64,
    focus_left: u64,
    focus_total: u64,
    rest_left: u64,
    rest_total: u64,
) -> (r: String)
    ensures
        r@ == spec_status_text(
            label@,
            iter_idx as int,
            iter_total as int,
            focus_left as int,
            focus_total as int,
            rest_left as int,
            rest_total as int,
        ),
{
    let mut out = String::from_str("status: ");
    out.append(label);
    out.append("\r\niteration: ");
    let idx = u64_to_dec(iter_idx);
    out.append(idx.as_str());
    out.append("/");
    let total = u64_to_dec(iter_total);
    out.append(total.as_str());
    out.append("\r\nfocus: ");
    let fl = as_time(focus_left);
    out.append(fl.as_str());
    out.append("/");
    let ft = as_time(focus_total);
    out.append(ft.as_str());
    out.append("\r\nrest: ");
    let rl = as_time(rest_left);
    out.append(rl.as_str());
    out.append("/");
    let rt = as_time(rest_total);
    out.append(rt.as_str());
    out.append("\r\n");
    out
}

/// The snapshot for a given label and elapsed time: while focusing, the
/// focus span counts down and the rest span stands whole; from the rest
/// boundary on, the focus span reads empty and the rest span counts
/// down to the end of the cycle.
pub open spec fn spec_snapshot(label: Seq<char>, m: SessionModel, elapsed: int) -> Seq<char>
    recommends
        config_valid(m),
{
    let n = spec_cycle_index(m, elapsed);
    let t = spec_offset(m, elapsed);
    if t < m.focus {
        spec_status_text(
            label,
            n,
            m.iterations as int,
            m.focus - t,
            m.focus as int,
            m.rest as int,
            m.rest as int,
        )
    } else {
        spec_status_text(
            label,
            n,
            m.iterations as int,
            0,
            m.focus as int,
            (m.focus + m.rest) - t,
            m.rest as int,
        )
    }
}

/// Builds the snapshot for this elapsed time, as `spec_snapshot`
/// states it.
pub fn snapshot(label: &str, cfg: &SessionConfig, elapsed: u64) -> (r: String)
    requires
        config_valid(cfg@),
    ensures
        r@ == spec_snapshot(label@, cfg@, elapsed as int),
{
    let n = cfg.cycle_index(elapsed);
    let t = cfg.offset(elapsed);
    if t < cfg.focus {
        build_status(label, n, cfg.iterations as u64, cfg.focus - t, cfg.focus, cfg.rest, cfg.rest)
    } else {
        build_status(
            label,
            n,
            cfg.iterations as u64,
            0,
            cfg.focus,
            (cfg.focus + cfg.rest) - t,
            cfg.rest,
        )
    }
}

} // verus!
