//! The stuck-valve watchdog: no valve stays open longer than its pulse and a margin.
//!
//! The watchdog looks at the stamps of the openings alone. It does not ask
//! whether the bus is up, and nothing but time decides what it closes.

use vstd::prelude::*;
use crate::db::ZoneConfig;
use crate::ingest::{Now, in_step, lemma_active_after_valve, seconds_between};
use crate::state::{EventKind, EventView, StateView, SystemState, lemma_zone_after_valve};
use crate::table::{
    Table, has_key, index_of, keys_distinct, lemma_index_of, lemma_push_lookup, lookup,
};
use crate::text::{decimal, push_int, push_str};
use crate::valve::{
    BoardView, PinWrite, Relay, ValveBoard, lemma_relay_after_set, relay_on, relays_after_set,
    write_for_set,
};

verus! {

/// The seconds that a valve may stay open beyond its pulse.
pub const WATCHDOG_MARGIN_SEC: i64 = 30;

/// The seconds between two rounds of the watchdog.
pub const WATCHDOG_INTERVAL_SEC: u64 = 5;

/// The pulse that is taken for a zone without settings.
pub const FALLBACK_PULSE_SEC: i64 = 60;

/// The seconds that the valve of a zone may be open.
pub open spec fn open_limit(cfg: Option<ZoneConfig>) -> int {
    match cfg {
        Some(c) => c.pulse_sec + WATCHDOG_MARGIN_SEC,
        None => FALLBACK_PULSE_SEC + WATCHDOG_MARGIN_SEC,
    }
}

/// Whether a valve that was opened at `since` has been open for too long.
pub open spec fn overdue(
    zone_configs: Seq<(Seq<char>, ZoneConfig)>,
    zone: Seq<char>,
    since: u64,
    now: Now,
) -> bool {
    seconds_between(since, now.mono_secs) > open_limit(lookup(zone_configs, zone))
}

/// One valve that the watchdog has closed.
#[derive(Debug)]
pub struct ForcedClose {
    pub zone_id: String,
    /// The level to drive the pin of the zone to.
    pub pin_write: Option<PinWrite>,
    /// The seconds to add to the open seconds of the zone for today.
    pub open_seconds: i64,
}

/// A `ForcedClose` with its text as characters.
pub ghost struct CloseView {
    pub zone_id: Seq<char>,
    pub pin_write: Option<PinWrite>,
    pub open_seconds: i64,
}

impl View for ForcedClose {
    type V = CloseView;

    open spec fn view(&self) -> CloseView {
        CloseView {
            zone_id: self.zone_id@,
            pin_write: self.pin_write,
            open_seconds: self.open_seconds,
        }
    }
}

/// The views of a list of closings.
pub open spec fn closes_view(closes: Seq<ForcedClose>) -> Seq<CloseView> {
    Seq::new(closes.len(), |i: int| closes[i]@)
}

/// The error event of a forced closing.
pub open spec fn forced_text(zone: Seq<char>, secs: i64) -> Seq<char> {
    "watchdog force-closed valve "@ + zone + " after "@ + decimal(secs as int) + "s"@
}

/// What a round of the watchdog has come to so far.
pub ghost struct Watch {
    pub state: StateView,
    pub relays: Seq<(Seq<char>, Relay)>,
    /// The stamps that stay.
    pub kept: Seq<(Seq<char>, u64)>,
    pub closes: Seq<CloseView>,
}

/// The round after one more stamp. A valve that is overdue is closed: its
/// relay is cleared, its stamp goes, the state shows it off, a valve event
/// and an error event enter the ring, and the time it was open is handed
/// out. Any other stamp stays.
pub open spec fn watch_one(
    w: Watch,
    row: (Seq<char>, u64),
    zone_configs: Seq<(Seq<char>, ZoneConfig)>,
    active_low: bool,
    now: Now,
) -> Watch {
    if overdue(zone_configs, row.0, row.1, now) {
        let secs = seconds_between(row.1, now.mono_secs);
        Watch {
            state: w.state.record_valve(now.unix_nanos, row.0, false).push_event(
                EventView {
                    ts: now.unix_nanos,
                    kind: EventKind::Error,
                    detail: forced_text(row.0, secs),
                },
            ),
            relays: relays_after_set(w.relays, row.0, false),
            kept: w.kept,
            closes: w.closes.push(
                CloseView {
                    zone_id: row.0,
                    pin_write: write_for_set(w.relays, active_low, row.0, false),
                    open_seconds: secs,
                },
            ),
        }
    } else {
        Watch { kept: w.kept.push(row), ..w }
    }
}

/// The round after all stamps, in their order.
pub open spec fn watch_all(
    w: Watch,
    rows: Seq<(Seq<char>, u64)>,
    zone_configs: Seq<(Seq<char>, ZoneConfig)>,
    active_low: bool,
    now: Now,
) -> Watch
    decreases rows.len(),
{
    if rows.len() == 0 {
        w
    } else {
        watch_one(
            watch_all(w, rows.drop_last(), zone_configs, active_low, now),
            rows.last(),
            zone_configs,
            active_low,
            now,
        )
    }
}

/// The round of the watchdog on the hub as it stands.
pub open spec fn watch_round(
    state: StateView,
    board: BoardView,
    opened: Seq<(Seq<char>, u64)>,
    zone_configs: Seq<(Seq<char>, ZoneConfig)>,
    now: Now,
) -> Watch {
    watch_all(
        Watch { state, relays: board.relays, kept: Seq::empty(), closes: Seq::empty() },
        opened,
        zone_configs,
        board.active_low,
        now,
    )
}

/// One round of the watchdog: closes every valve that is overdue and
/// returns what was closed.
pub fn watchdog_tick(
    zone_configs: &Table<ZoneConfig>,
    valves: &mut ValveBoard,
    valve_opened_at: &mut Table<u64>,
    shared: &mut SystemState,
    now: Now,
) -> (closes: Vec<ForcedClose>)
    ensures
        ({
            let w = watch_round(
                old(shared)@,
                old(valves)@,
                old(valve_opened_at).rows(),
                zone_configs.rows(),
                now,
            );
            &&& final(shared)@ == w.state
            &&& final(valves)@.relays == w.relays
            &&& final(valves)@.active_low == old(valves)@.active_low
            &&& final(valve_opened_at).rows() == w.kept
            &&& closes_view(closes@) == w.closes
        }),
        old(valve_opened_at).wf() ==> final(valve_opened_at).wf(),
        final(shared)@.active() <= old(shared)@.active(),
        old(shared)@.wf() ==> final(shared)@.wf(),
        old(valve_opened_at).wf() ==> forall|zone: Seq<char>|
            #![trigger lookup(old(valve_opened_at).rows(), zone)]
            match lookup(old(valve_opened_at).rows(), zone) {
                Some(since) => if overdue(zone_configs.rows(), zone, since, now) {
                    &&& !has_key(final(valve_opened_at).rows(), zone)
                    &&& !final(shared)@.zone_on(zone)
                    &&& !relay_on(final(valves)@.relays, zone)
                } else {
                    lookup(final(valve_opened_at).rows(), zone) == Some(since)
                },
                None => !has_key(final(valve_opened_at).rows(), zone),
            },
        old(valve_opened_at).wf() && in_step(old(valves)@, old(valve_opened_at).rows(), old(shared)@)
            ==> in_step(final(valves)@, final(valve_opened_at).rows(), final(shared)@),
{
    let ghost start = Watch {
        state: old(shared)@,
        relays: old(valves)@.relays,
        kept: Seq::empty(),
        closes: Seq::empty(),
    };
    let ghost rows = old(valve_opened_at).rows();
    let ghost active_low = old(valves)@.active_low;
    let mut kept: Table<u64> = Table::new();
    let mut closes: Vec<ForcedClose> = Vec::new();
    let mut i: usize = 0;
    assert(closes_view(closes@) =~= Seq::<CloseView>::empty());
    while i < valve_opened_at.len()
        invariant
            i <= rows.len(),
            valve_opened_at.rows() == rows,
            valves@.active_low == active_low,
            old(shared)@.wf() ==> shared@.wf(),
            (Watch {
                state: shared@,
                relays: valves@.relays,
                kept: kept.rows(),
                closes: closes_view(closes@),
            }) == watch_all(start, rows.take(i as int), zone_configs.rows(), active_low, now),
        decreases rows.len() - i,
    {
        let since = *valve_opened_at.value(i);
        let zone = valve_opened_at.key(i);
        proof {
            assert(rows.take(i + 1).drop_last() =~= rows.take(i as int));
            assert(rows.take(i + 1).last() == rows[i as int]);
        }
        let limit: i128 = match zone_configs.get(zone.as_str()) {
            Some(c) => c.pulse_sec as i128 + WATCHDOG_MARGIN_SEC as i128,
            None => FALLBACK_PULSE_SEC as i128 + WATCHDOG_MARGIN_SEC as i128,
        };
        let secs: i64 = if now.mono_secs < since {
            0
        } else if now.mono_secs - since > 0x7fff_ffff_ffff_ffff {
            0x7fff_ffff_ffff_ffff
        } else {
            (now.mono_secs - since) as i64
        };
        if secs as i128 > limit {
            let write = valves.set(zone.as_str(), false);
            shared.record_valve_at(now.unix_nanos, zone.as_str(), false);
            let mut text: String = String::new();
            push_str(&mut text, "watchdog force-closed valve ");
            push_str(&mut text, zone.as_str());
            push_str(&mut text, " after ");
            push_int(&mut text, secs);
            push_str(&mut text, "s");
            assert(text@ =~= forced_text(zone@, secs));
            shared.record_error_at(now.unix_nanos, text);
            let ghost before = closes_view(closes@);
            closes.push(ForcedClose { zone_id: zone.clone(), pin_write: write, open_seconds: secs });
            assert(closes_view(closes@) =~= before.push(closes@.last()@));
        } else {
            kept.push_row(zone.as_str(), since);
        }
        i += 1;
    }
    assert(rows.take(rows.len() as int) =~= rows);
    proof {
        if keys_distinct(rows) {
            lemma_watch_keeps(start, rows, zone_configs.rows(), active_low, now);
            assert forall|zone: Seq<char>|
                #![trigger lookup(rows, zone)]
                match lookup(rows, zone) {
                    Some(since) => if overdue(zone_configs.rows(), zone, since, now) {
                        &&& !has_key(kept.rows(), zone)
                        &&& !shared@.zone_on(zone)
                        &&& !relay_on(valves@.relays, zone)
                    } else {
                        lookup(kept.rows(), zone) == Some(since)
                    },
                    None => !has_key(kept.rows(), zone),
                } by {
                lemma_round_closes_overdue(
                    old(shared)@,
                    old(valves)@,
                    rows,
                    zone_configs.rows(),
                    now,
                    zone,
                );
            }
        }
        lemma_watch_active(start, rows, zone_configs.rows(), active_low, now);
        if keys_distinct(rows) && in_step(old(valves)@, rows, old(shared)@) {
            lemma_round_keeps_step(old(shared)@, old(valves)@, rows, zone_configs.rows(), now);
        }
    }
    *valve_opened_at = kept;
    closes
}

/// A round of the watchdog never adds to the zones that are on.
proof fn lemma_watch_active(
    w0: Watch,
    rows: Seq<(Seq<char>, u64)>,
    zone_configs: Seq<(Seq<char>, ZoneConfig)>,
    active_low: bool,
    now: Now,
)
    ensures
        watch_all(w0, rows, zone_configs, active_low, now).state.active() <= w0.state.active(),
    decreases rows.len(),
{
    if rows.len() > 0 {
        lemma_watch_active(w0, rows.drop_last(), zone_configs, active_low, now);
        let p = watch_all(w0, rows.drop_last(), zone_configs, active_low, now);
        lemma_active_after_valve(p.state, now.unix_nanos, rows.last().0, false);
    }
}

/// Whether some stamp of `zone` among `rows` is overdue.
pub open spec fn overdue_in(
    rows: Seq<(Seq<char>, u64)>,
    zone_configs: Seq<(Seq<char>, ZoneConfig)>,
    now: Now,
    zone: Seq<char>,
) -> bool
    decreases rows.len(),
{
    if rows.len() == 0 {
        false
    } else {
        overdue_in(rows.drop_last(), zone_configs, now, zone) || (rows.last().0 == zone && overdue(
            zone_configs,
            zone,
            rows.last().1,
            now,
        ))
    }
}

/// Whether some stamp of `zone` among `rows` is not overdue.
pub open spec fn fresh_in(
    rows: Seq<(Seq<char>, u64)>,
    zone_configs: Seq<(Seq<char>, ZoneConfig)>,
    now: Now,
    zone: Seq<char>,
) -> bool
    decreases rows.len(),
{
    if rows.len() == 0 {
        false
    } else {
        fresh_in(rows.drop_last(), zone_configs, now, zone) || (rows.last().0 == zone && !overdue(
            zone_configs,
            zone,
            rows.last().1,
            now,
        ))
    }
}

/// What a round of the watchdog does to one zone: its valve is on afterwards
/// exactly if it was on and no stamp of it is overdue, and a stamp of it
/// stays exactly if one is not overdue.
proof fn lemma_watch_zone(
    w0: Watch,
    rows: Seq<(Seq<char>, u64)>,
    zone_configs: Seq<(Seq<char>, ZoneConfig)>,
    active_low: bool,
    now: Now,
    zone: Seq<char>,
)
    ensures
        ({
            let w = watch_all(w0, rows, zone_configs, active_low, now);
            &&& has_key(w.relays, zone) == has_key(w0.relays, zone)
            &&& has_key(w.state.zones, zone) == has_key(w0.state.zones, zone)
            &&& relay_on(w.relays, zone) == (relay_on(w0.relays, zone) && !overdue_in(
                rows,
                zone_configs,
                now,
                zone,
            ))
            &&& w.state.zone_on(zone) == (w0.state.zone_on(zone) && !overdue_in(
                rows,
                zone_configs,
                now,
                zone,
            ))
            &&& has_key(w.kept, zone) == (has_key(w0.kept, zone) || fresh_in(
                rows,
                zone_configs,
                now,
                zone,
            ))
        }),
    decreases rows.len(),
{
    if rows.len() > 0 {
        let row = rows.last();
        lemma_watch_zone(w0, rows.drop_last(), zone_configs, active_low, now, zone);
        let p = watch_all(w0, rows.drop_last(), zone_configs, active_low, now);
        if overdue(zone_configs, row.0, row.1, now) {
            lemma_relay_after_set(p.relays, row.0, false, zone);
            lemma_zone_after_valve(p.state, now.unix_nanos, row.0, false, zone);
        } else {
            lemma_push_lookup(p.kept, row, zone);
        }
    }
}

/// A zone has a stamp among `rows` exactly if it has one that is overdue or
/// one that is not; where no zone has two stamps, it does not have both.
proof fn lemma_one_stamp(
    rows: Seq<(Seq<char>, u64)>,
    zone_configs: Seq<(Seq<char>, ZoneConfig)>,
    now: Now,
    zone: Seq<char>,
)
    ensures
        has_key(rows, zone) == (overdue_in(rows, zone_configs, now, zone) || fresh_in(
            rows,
            zone_configs,
            now,
            zone,
        )),
        keys_distinct(rows) ==> !(overdue_in(rows, zone_configs, now, zone) && fresh_in(
            rows,
            zone_configs,
            now,
            zone,
        )),
    decreases rows.len(),
{
    if rows.len() > 0 {
        let front = rows.drop_last();
        lemma_one_stamp(front, zone_configs, now, zone);
        if has_key(front, zone) {
            let a = choose|a: int| 0 <= a < front.len() && front[a].0 == zone;
            assert(rows[a].0 == zone);
            if keys_distinct(rows) {
                assert(rows[a].0 != rows[rows.len() - 1].0);
            }
        }
        if has_key(rows, zone) {
            let a = choose|a: int| 0 <= a < rows.len() && rows[a].0 == zone;
            if a < front.len() {
                assert(front[a].0 == zone);
            }
        }
        if rows.last().0 == zone {
            assert(rows[rows.len() - 1].0 == zone);
        }
        if keys_distinct(rows) {
            assert forall|a: int, b: int| 0 <= a < b < front.len() implies front[a].0
                != front[b].0 by {
                assert(rows[a].0 != rows[b].0);
            }
        }
    }
}

/// A round of the watchdog keeps board, stamps and state in step.
pub proof fn lemma_round_keeps_step(
    state: StateView,
    board: BoardView,
    opened: Seq<(Seq<char>, u64)>,
    zone_configs: Seq<(Seq<char>, ZoneConfig)>,
    now: Now,
)
    requires
        keys_distinct(opened),
        in_step(board, opened, state),
    ensures
        ({
            let w = watch_round(state, board, opened, zone_configs, now);
            in_step(BoardView { relays: w.relays, ..board }, w.kept, w.state)
        }),
{
    let w = watch_round(state, board, opened, zone_configs, now);
    let w0 = Watch { state, relays: board.relays, kept: Seq::empty(), closes: Seq::empty() };
    assert forall|zone: Seq<char>| #![trigger has_key(w.kept, zone)] {
        &&& relay_on(w.relays, zone) == (has_key(w.relays, zone) && has_key(w.kept, zone))
        &&& w.state.zone_on(zone) == (has_key(w.state.zones, zone) && has_key(w.kept, zone))
    } by {
        lemma_watch_zone(w0, opened, zone_configs, board.active_low, now, zone);
        lemma_one_stamp(opened, zone_configs, now, zone);
        assert(relay_on(board.relays, zone) == (has_key(board.relays, zone) && has_key(
            opened,
            zone,
        )));
        assert(state.zone_on(zone) == (has_key(state.zones, zone) && has_key(opened, zone)));
    }
}

/// The stamps that a round of the watchdog keeps: no zone has two of them,
/// and each stamp that is not overdue is kept as it was.
proof fn lemma_watch_keeps(
    w0: Watch,
    rows: Seq<(Seq<char>, u64)>,
    zone_configs: Seq<(Seq<char>, ZoneConfig)>,
    active_low: bool,
    now: Now,
)
    requires
        w0.kept.len() == 0,
        keys_distinct(rows),
    ensures
        ({
            let w = watch_all(w0, rows, zone_configs, active_low, now);
            &&& keys_distinct(w.kept)
            &&& forall|z: Seq<char>| #[trigger] has_key(w.kept, z) ==> has_key(rows, z)
            &&& forall|j: int|
                0 <= j < rows.len() && !overdue(zone_configs, (#[trigger] rows[j]).0, rows[j].1, now)
                    ==> lookup(w.kept, rows[j].0) == Some(rows[j].1)
        }),
    decreases rows.len(),
{
    if rows.len() > 0 {
        let front = rows.drop_last();
        let row = rows.last();
        let p = watch_all(w0, front, zone_configs, active_low, now);
        let w = watch_one(p, row, zone_configs, active_low, now);
        assert(w == watch_all(w0, rows, zone_configs, active_low, now));
        assert(keys_distinct(front)) by {
            assert forall|a: int, b: int| 0 <= a < b < front.len() implies front[a].0
                != front[b].0 by {
                assert(rows[a].0 != rows[b].0);
            }
        }
        lemma_watch_keeps(w0, front, zone_configs, active_low, now);
        assert(!has_key(front, row.0)) by {
            if has_key(front, row.0) {
                let a = choose|a: int| 0 <= a < front.len() && front[a].0 == row.0;
                assert(rows[a].0 != rows[rows.len() - 1].0);
            }
        }
        assert forall|z: Seq<char>| has_key(front, z) implies has_key(rows, z) by {
            let a = choose|a: int| 0 <= a < front.len() && front[a].0 == z;
            assert(rows[a].0 == z);
        }
        assert(has_key(rows, row.0)) by {
            assert(rows[rows.len() - 1].0 == row.0);
        }
        assert forall|j: int| 0 <= j < front.len() implies front[j] == rows[j] by {}
        assert(!has_key(p.kept, row.0));
        if !overdue(zone_configs, row.0, row.1, now) {
            assert(w.kept == p.kept.push(row));
            assert(keys_distinct(w.kept)) by {
                assert forall|a: int, b: int| 0 <= a < b < w.kept.len() implies w.kept[a].0
                    != w.kept[b].0 by {
                    if b == p.kept.len() {
                        assert(p.kept[a].0 != row.0);
                    } else {
                        assert(p.kept[a].0 != p.kept[b].0);
                    }
                }
            }
            assert forall|z: Seq<char>| #[trigger] has_key(w.kept, z) implies has_key(rows, z) by {
                lemma_push_lookup(p.kept, row, z);
                if has_key(p.kept, z) {
                    assert(has_key(front, z));
                }
            }
            assert forall|j: int|
                0 <= j < rows.len() && !overdue(
                    zone_configs,
                    (#[trigger] rows[j]).0,
                    rows[j].1,
                    now,
                ) implies lookup(w.kept, rows[j].0) == Some(rows[j].1) by {
                lemma_push_lookup(p.kept, row, rows[j].0);
                if j < front.len() {
                    assert(front[j] == rows[j]);
                    assert(lookup(p.kept, front[j].0) == Some(front[j].1));
                }
            }
        } else {
            assert forall|j: int|
                0 <= j < rows.len() && !overdue(
                    zone_configs,
                    (#[trigger] rows[j]).0,
                    rows[j].1,
                    now,
                ) implies lookup(w.kept, rows[j].0) == Some(rows[j].1) by {
                if j < front.len() {
                    assert(front[j] == rows[j]);
                    assert(lookup(p.kept, front[j].0) == Some(front[j].1));
                }
            }
        }
    }
}

/// After a round of the watchdog no valve is left that has been open for
/// longer than its pulse and the margin: each such valve is off on the
/// board and in the state, and its stamp is gone. Every other stamp is as
/// it was, and the round switches no valve on.
pub proof fn lemma_round_closes_overdue(
    state: StateView,
    board: BoardView,
    opened: Seq<(Seq<char>, u64)>,
    zone_configs: Seq<(Seq<char>, ZoneConfig)>,
    now: Now,
    zone: Seq<char>,
)
    requires
        keys_distinct(opened),
    ensures
        ({
            let w = watch_round(state, board, opened, zone_configs, now);
            &&& keys_distinct(w.kept)
            &&& w.state.zone_on(zone) ==> state.zone_on(zone)
            &&& relay_on(w.relays, zone) ==> relay_on(board.relays, zone)
            &&& match lookup(opened, zone) {
                Some(since) => if overdue(zone_configs, zone, since, now) {
                    &&& !has_key(w.kept, zone)
                    &&& !w.state.zone_on(zone)
                    &&& !relay_on(w.relays, zone)
                } else {
                    lookup(w.kept, zone) == Some(since)
                },
                None => !has_key(w.kept, zone),
            }
        }),
{
    let w0 = Watch { state, relays: board.relays, kept: Seq::empty(), closes: Seq::empty() };
    lemma_watch_keeps(w0, opened, zone_configs, board.active_low, now);
    lemma_watch_zone(w0, opened, zone_configs, board.active_low, now, zone);
    lemma_one_stamp(opened, zone_configs, now, zone);
    lemma_stamp_found(opened, zone_configs, now, zone);
    lemma_index_of(opened, zone);
    if has_key(opened, zone) {
        let j = index_of(opened, zone);
        assert(opened[j].0 == zone);
    }
}

/// Where a zone has a stamp, the stamp that is found for it is overdue
/// exactly if some stamp of the zone is, as long as no zone has two stamps.
proof fn lemma_stamp_found(
    rows: Seq<(Seq<char>, u64)>,
    zone_configs: Seq<(Seq<char>, ZoneConfig)>,
    now: Now,
    zone: Seq<char>,
)
    requires
        keys_distinct(rows),
    ensures
        has_key(rows, zone) ==> overdue_in(rows, zone_configs, now, zone) == overdue(
            zone_configs,
            zone,
            rows[index_of(rows, zone)].1,
            now,
        ),
    decreases rows.len(),
{
    lemma_index_of(rows, zone);
    if rows.len() > 0 && has_key(rows, zone) {
        let front = rows.drop_last();
        let last = rows.len() - 1;
        let i = index_of(rows, zone);
        assert forall|a: int, b: int| 0 <= a < b < front.len() implies front[a].0
            != front[b].0 by {
            assert(rows[a].0 != rows[b].0);
        }
        lemma_one_stamp(front, zone_configs, now, zone);
        lemma_index_of(front, zone);
        if i < last {
            assert(front[i].0 == zone);
            assert(rows[i].0 != rows[last].0);
            lemma_stamp_found(front, zone_configs, now, zone);
            assert(index_of(front, zone) == i) by {
                let k = index_of(front, zone);
                assert(front[k].0 == zone);
                if k < i {
                    assert(rows[k].0 != rows[i].0);
                } else if i < k {
                    assert(rows[i].0 != rows[k].0);
                }
            }
        } else {
            if has_key(front, zone) {
                let a = choose|a: int| 0 <= a < front.len() && front[a].0 == zone;
                assert(rows[a].0 != rows[last].0);
            }
        }
    }
}

} // verus!
