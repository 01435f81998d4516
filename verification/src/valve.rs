//! The valve board: which relay is on, and which logic level that asks of its pin.
//!
//! The board decides; whoever owns the pins drives them. Each change comes
//! back as the write that has to reach the hardware.

use vstd::prelude::*;
use crate::table::{
    Table, has_key, index_of, keys_distinct, lemma_index_of, lemma_push_lookup, lemma_same_keys,
    lemma_with_entry_keys, with_entry,
};

verus! {

/// One relay: its pin and whether it is on.
#[derive(Clone, Copy, Debug)]
pub struct Relay {
    pub gpio_pin: u8,
    pub on: bool,
}

/// A logic level to drive a pin to.
#[derive(Clone, Copy, Debug, PartialEq, Eq, Structural)]
pub struct PinWrite {
    pub gpio_pin: u8,
    /// Logic-high when true, logic-low when false.
    pub high: bool,
}

/// The level that stands for `on` with the given polarity: an active-low
/// relay is on at logic-low, an active-high relay at logic-high.
pub open spec fn level_for(on: bool, active_low: bool) -> bool {
    on != active_low
}

/// The board as plain values.
pub ghost struct BoardView {
    pub relays: Seq<(Seq<char>, Relay)>,
    pub active_low: bool,
}

/// The relays of a new board: each off, on its pin. A zone that is named
/// twice keeps its first place and gets the later pin.
pub open spec fn initial_relays(pairs: Seq<(String, u8)>) -> Seq<(Seq<char>, Relay)>
    decreases pairs.len(),
{
    if pairs.len() == 0 {
        Seq::empty()
    } else {
        with_entry(
            initial_relays(pairs.drop_last()),
            pairs.last().0@,
            Relay { gpio_pin: pairs.last().1, on: false },
        )
    }
}

/// The relays after the one of `zone` was set; a zone that the board does
/// not know changes nothing.
pub open spec fn relays_after_set(relays: Seq<(Seq<char>, Relay)>, zone: Seq<char>, on: bool) -> Seq<
    (Seq<char>, Relay),
> {
    if has_key(relays, zone) {
        let i = index_of(relays, zone);
        relays.update(i, (zone, Relay { gpio_pin: relays[i].1.gpio_pin, on }))
    } else {
        relays
    }
}

/// The write that setting the relay of `zone` asks for, if the board knows the zone.
pub open spec fn write_for_set(
    relays: Seq<(Seq<char>, Relay)>,
    active_low: bool,
    zone: Seq<char>,
    on: bool,
) -> Option<PinWrite> {
    if has_key(relays, zone) {
        Some(
            PinWrite {
                gpio_pin: relays[index_of(relays, zone)].1.gpio_pin,
                high: level_for(on, active_low),
            },
        )
    } else {
        None
    }
}

/// The relays with every one off.
pub open spec fn relays_all_off(relays: Seq<(Seq<char>, Relay)>) -> Seq<(Seq<char>, Relay)> {
    Seq::new(
        relays.len(),
        |i: int| (relays[i].0, Relay { gpio_pin: relays[i].1.gpio_pin, on: false }),
    )
}

/// The writes that switch every relay off, in the order of the relays.
pub open spec fn writes_all_off(relays: Seq<(Seq<char>, Relay)>, active_low: bool) -> Seq<
    PinWrite,
> {
    Seq::new(
        relays.len(),
        |i: int| PinWrite { gpio_pin: relays[i].1.gpio_pin, high: level_for(false, active_low) },
    )
}

/// The valve board.
pub struct ValveBoard {
    relays: Table<Relay>,
    active_low: bool,
}

impl View for ValveBoard {
    type V = BoardView;

    closed spec fn view(&self) -> BoardView {
        BoardView { relays: self.relays.rows(), active_low: self.active_low }
    }
}

impl ValveBoard {
    /// A board for the given zones and pins with every relay off. The pins
    /// are to be taken into use at `off_level`.
    pub fn new(zone_to_gpio: &[(String, u8)], active_low: bool) -> (board: Self)
        ensures
            board@.relays == initial_relays(zone_to_gpio@),
            board@.active_low == active_low,
            keys_distinct(board@.relays),
    {
        let mut relays: Table<Relay> = Table::new();
        let mut i: usize = 0;
        while i < zone_to_gpio.len()
            invariant
                i <= zone_to_gpio.len(),
                relays.wf(),
                relays.rows() == initial_relays(zone_to_gpio@.take(i as int)),
            decreases zone_to_gpio.len() - i,
        {
            let pair = &zone_to_gpio[i];
            proof {
                assert(zone_to_gpio@.take(i + 1).drop_last() =~= zone_to_gpio@.take(i as int));
            }
            relays.put(pair.0.as_str(), Relay { gpio_pin: pair.1, on: false });
            i += 1;
        }
        proof {
            assert(zone_to_gpio@.take(zone_to_gpio@.len() as int) =~= zone_to_gpio@);
        }
        ValveBoard { relays, active_low }
    }

    /// The level at which a pin of this board is off.
    pub fn off_level(&self) -> (high: bool)
        ensures
            high == level_for(false, self@.active_low),
    {
        self.active_low
    }

    /// The number of relays.
    pub fn len(&self) -> (n: usize)
        ensures
            n == self@.relays.len(),
    {
        self.relays.len()
    }

    /// Whether the relay of `zone_id` is on, if the board knows the zone.
    pub fn is_on(&self, zone_id: &str) -> (on: Option<bool>)
        ensures
            on is Some <==> has_key(self@.relays, zone_id@),
            on is Some ==> on->0 == self@.relays[index_of(self@.relays, zone_id@)].1.on,
    {
        match self.relays.position(zone_id) {
            Some(i) => Some(self.relays.value(i).on),
            None => None,
        }
    }

    /// Sets the relay of a zone and returns the write for its pin. A zone
    /// that the board does not know changes nothing and asks for no write.
    pub fn set(&mut self, zone_id: &str, on: bool) -> (write: Option<PinWrite>)
        ensures
            final(self)@.relays == relays_after_set(old(self)@.relays, zone_id@, on),
            final(self)@.active_low == old(self)@.active_low,
            write == write_for_set(old(self)@.relays, old(self)@.active_low, zone_id@, on),
    {
        match self.relays.position(zone_id) {
            Some(i) => {
                let pin = self.relays.value(i).gpio_pin;
                proof {
                    lemma_index_of(self.relays.rows(), zone_id@);
                }
                self.relays.set_value(i, Relay { gpio_pin: pin, on });
                Some(PinWrite { gpio_pin: pin, high: on != self.active_low })
            },
            None => None,
        }
    }

    /// Switches every relay off and returns the writes for all pins.
    pub fn all_off(&mut self) -> (writes: Vec<PinWrite>)
        ensures
            final(self)@.relays == relays_all_off(old(self)@.relays),
            final(self)@.active_low == old(self)@.active_low,
            writes@ == writes_all_off(old(self)@.relays, old(self)@.active_low),
    {
        let mut writes: Vec<PinWrite> = Vec::new();
        let mut i: usize = 0;
        while i < self.relays.len()
            invariant
                i <= self.relays.rows().len(),
                self.relays.rows().len() == old(self).relays.rows().len(),
                self.active_low == old(self).active_low,
                forall|j: int|
                    0 <= j < i ==> self.relays.rows()[j] == relays_all_off(
                        old(self).relays.rows(),
                    )[j],
                forall|j: int|
                    i <= j < self.relays.rows().len() ==> self.relays.rows()[j] == old(
                        self,
                    ).relays.rows()[j],
                writes@ == writes_all_off(old(self).relays.rows(), self.active_low).take(i as int),
            decreases self.relays.rows().len() - i,
        {
            let pin = self.relays.value(i).gpio_pin;
            self.relays.set_value(i, Relay { gpio_pin: pin, on: false });
            writes.push(PinWrite { gpio_pin: pin, high: self.active_low });
            assert(writes@ =~= writes_all_off(old(self).relays.rows(), self.active_low).take(
                i + 1,
            ));
            i += 1;
        }
        assert(self.relays.rows() =~= relays_all_off(old(self).relays.rows()));
        assert(writes@ =~= writes_all_off(old(self).relays.rows(), self.active_low));
        writes
    }
}

/// After `all_off` every relay is off, every pin gets a write, and every
/// write is to the level at which the pin is off.
pub proof fn lemma_all_off_reaches_every_pin(relays: Seq<(Seq<char>, Relay)>, active_low: bool)
    ensures
        forall|i: int|
            0 <= i < relays.len() ==> !(#[trigger] relays_all_off(relays)[i]).1.on,
        writes_all_off(relays, active_low).len() == relays.len(),
        forall|i: int|
            0 <= i < relays.len() ==> {
                let w = #[trigger] writes_all_off(relays, active_low)[i];
                w.gpio_pin == relays[i].1.gpio_pin && w.high == level_for(false, active_low)
            },
{
}


/// Whether the relay of `zone` is on; false for a zone that the board does not know.
pub open spec fn relay_on(relays: Seq<(Seq<char>, Relay)>, zone: Seq<char>) -> bool {
    has_key(relays, zone) && relays[index_of(relays, zone)].1.on
}

/// Setting the relay of one zone sets that relay, if the board knows the
/// zone, and leaves every other relay as it is.
pub proof fn lemma_relay_after_set(
    relays: Seq<(Seq<char>, Relay)>,
    zone: Seq<char>,
    on: bool,
    other: Seq<char>,
)
    ensures
        has_key(relays_after_set(relays, zone, on), other) == has_key(relays, other),
        relay_on(relays_after_set(relays, zone, on), other) == if other == zone {
            has_key(relays, zone) && on
        } else {
            relay_on(relays, other)
        },
{
    let next = relays_after_set(relays, zone, on);
    lemma_index_of(relays, zone);
    lemma_index_of(relays, other);
    assert forall|i: int| 0 <= i < relays.len() implies relays[i].0 == next[i].0 by {}
    lemma_same_keys(relays, next, other);
}

/// With every relay off no relay is on.
pub proof fn lemma_relays_all_off(relays: Seq<(Seq<char>, Relay)>, zone: Seq<char>)
    ensures
        has_key(relays_all_off(relays), zone) == has_key(relays, zone),
        !relay_on(relays_all_off(relays), zone),
{
    let next = relays_all_off(relays);
    lemma_index_of(next, zone);
    assert forall|i: int| 0 <= i < relays.len() implies relays[i].0 == next[i].0 by {}
    lemma_same_keys(relays, next, zone);
}

/// On a new board no relay is on.
pub proof fn lemma_new_board_is_off(pairs: Seq<(String, u8)>, zone: Seq<char>)
    ensures
        !relay_on(initial_relays(pairs), zone),
    decreases pairs.len(),
{
    if pairs.len() > 0 {
        let front = initial_relays(pairs.drop_last());
        let key = pairs.last().0@;
        let relay = Relay { gpio_pin: pairs.last().1, on: false };
        lemma_new_board_is_off(pairs.drop_last(), zone);
        lemma_index_of(front, key);
        lemma_index_of(front, zone);
        lemma_with_entry_keys(front, key, relay, zone);
        let next = with_entry(front, key, relay);
        lemma_index_of(next, zone);
        if has_key(front, key) {
            assert forall|i: int| 0 <= i < front.len() implies front[i].0 == next[i].0 by {}
            lemma_same_keys(front, next, zone);
        } else if has_key(next, zone) {
            let i = index_of(next, zone);
            if i < front.len() {
                assert(front[i].0 == zone);
                lemma_push_lookup(front, (key, relay), zone);
            }
        }
    }
}

} // verus!
