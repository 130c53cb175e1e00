//! The WLED transmitter's computational half: the catalog of presets and
//! effects loaded from the device, looked up by name, and the choice of
//! which boost playlist to run for a given amount.  The HTTP work happens
//! outside the engine, which receives the loaded catalog as plain values.

use vstd::prelude::*;
use vstd::string::*;

use crate::strutil::{decimal_int_of, fmt_i64, str_eq};

verus! {

/// One preset on the device.
#[derive(Debug)]
pub struct Preset {
    pub id: u64,
    pub name: String,
}

/// One effect on the device.
#[derive(Debug)]
pub struct Effect {
    pub id: u64,
    pub name: String,
}

/// The first preset with a given name.
pub open spec fn spec_find_preset(presets: Seq<Preset>, name: Seq<char>) -> Option<Preset>
    decreases presets.len(),
{
    if presets.len() == 0 {
        None
    } else if presets[0].name@ == name {
        Some(presets[0])
    } else {
        spec_find_preset(presets.subrange(1, presets.len() as int), name)
    }
}

/// The first effect with a given name.
pub open spec fn spec_find_effect(effects: Seq<Effect>, name: Seq<char>) -> Option<Effect>
    decreases effects.len(),
{
    if effects.len() == 0 {
        None
    } else if effects[0].name@ == name {
        Some(effects[0])
    } else {
        spec_find_effect(effects.subrange(1, effects.len() as int), name)
    }
}

/// The highest preset id, 0 when there is none.
pub open spec fn spec_max_preset_id(presets: Seq<Preset>) -> int
    decreases presets.len(),
{
    if presets.len() == 0 {
        0
    } else {
        let rest = spec_max_preset_id(presets.drop_last());
        if presets.last().id as int > rest {
            presets.last().id as int
        } else {
            rest
        }
    }
}

/// The device catalog: its host name and the loaded presets and effects.
#[derive(Debug)]
pub struct WLed {
    pub host: String,
    pub presets: Vec<Preset>,
    pub effects: Vec<Effect>,
}

impl WLed {
    /// An empty catalog, before anything is loaded.
    pub fn new() -> (r: WLed)
        ensures
            r.host@.len() == 0,
            r.presets@.len() == 0,
            r.effects@.len() == 0,
    {
        WLed { host: String::new(), presets: Vec::new(), effects: Vec::new() }
    }

    /// Install a loaded catalog, as read from the device.
    pub fn set_catalog(&mut self, host: String, presets: Vec<Preset>, effects: Vec<Effect>)
        ensures
            final(self).host == host,
            final(self).presets == presets,
            final(self).effects == effects,
    {
        self.host = host;
        self.presets = presets;
        self.effects = effects;
    }

    /// Look an effect up by name (the first match).
    pub fn get_effect(&self, name: &str) -> (r: Option<Effect>)
        ensures
            r == spec_find_effect(self.effects@, name@),
    {
        let n = self.effects.len();
        proof {
            assert(self.effects@.subrange(0, n as int) =~= self.effects@);
        }
        let mut i: usize = 0;
        while i < n
            invariant
                i <= n,
                n == self.effects@.len(),
                spec_find_effect(self.effects@, name@) == spec_find_effect(
                    self.effects@.subrange(i as int, n as int),
                    name@,
                ),
            decreases n - i,
        {
            proof {
                assert(self.effects@.subrange(i as int, n as int)[0] == self.effects@[i as int]);
                assert(self.effects@.subrange(i as int, n as int).subrange(
                    1,
                    n - i as int,
                ) =~= self.effects@.subrange(i + 1, n as int));
            }
            if str_eq(self.effects[i].name.as_str(), name) {
                return Some(Effect { id: self.effects[i].id, name: self.effects[i].name.clone() });
            }
            i += 1;
        }
        None
    }

    /// An effect's id by name, 0 when it is unknown.
    pub fn get_effect_id(&self, name: &str) -> (r: u64)
        ensures
            r as int == (match spec_find_effect(self.effects@, name@) {
                Some(e) => e.id as int,
                None => 0,
            }),
    {
        match self.get_effect(name) {
            Some(eff) => eff.id,
            None => 0,
        }
    }

    /// Look a preset up by name (the first match).
    pub fn get_preset(&self, name: &str) -> (r: Option<Preset>)
        ensures
            r == spec_find_preset(self.presets@, name@),
    {
        let n = self.presets.len();
        proof {
            assert(self.presets@.subrange(0, n as int) =~= self.presets@);
        }
        let mut i: usize = 0;
        while i < n
            invariant
                i <= n,
                n == self.presets@.len(),
                spec_find_preset(self.presets@, name@) == spec_find_preset(
                    self.presets@.subrange(i as int, n as int),
                    name@,
                ),
            decreases n - i,
        {
            proof {
                assert(self.presets@.subrange(i as int, n as int)[0] == self.presets@[i as int]);
                assert(self.presets@.subrange(i as int, n as int).subrange(
                    1,
                    n - i as int,
                ) =~= self.presets@.subrange(i + 1, n as int));
            }
            if str_eq(self.presets[i].name.as_str(), name) {
                return Some(Preset { id: self.presets[i].id, name: self.presets[i].name.clone() });
            }
            i += 1;
        }
        None
    }

    /// A preset's id by name; an unknown name gets the next free id (one
    /// past the highest id held, or 1 for an empty catalog).
    pub fn get_preset_id(&self, name: &str) -> (r: u64)
        requires
            spec_max_preset_id(self.presets@) < u64::MAX,
        ensures
            r as int == (match spec_find_preset(self.presets@, name@) {
                Some(p) => p.id as int,
                None => if self.presets@.len() == 0 {
                    1
                } else {
                    spec_max_preset_id(self.presets@) + 1
                },
            }),
    {
        match self.get_preset(name) {
            Some(p) => p.id,
            None => {
                let n = self.presets.len();
                if n == 0 {
                    return 1;
                }
                let mut max: u64 = 0;
                let mut i: usize = 0;
                while i < n
                    invariant
                        i <= n,
                        n == self.presets@.len(),
                        max as int == spec_max_preset_id(self.presets@.take(i as int)),
                        spec_max_preset_id(self.presets@) < u64::MAX,
                    decreases n - i,
                {
                    proof {
                        assert(self.presets@.take(i + 1).drop_last() =~= self.presets@.take(
                            i as int,
                        ));
                        lemma_max_preset_id_take_bound(self.presets@, i + 1);
                    }
                    if self.presets[i].id > max {
                        max = self.presets[i].id;
                    }
                    i += 1;
                }
                proof {
                    assert(self.presets@.take(n as int) =~= self.presets@);
                }
                max + 1
            },
        }
    }
}

/// The highest id over a prefix never exceeds the highest id over all.
proof fn lemma_max_preset_id_take_bound(presets: Seq<Preset>, k: int)
    requires
        0 <= k <= presets.len(),
    ensures
        spec_max_preset_id(presets.take(k)) <= spec_max_preset_id(presets),
    decreases presets.len() - k,
{
    if k == presets.len() {
        assert(presets.take(k) =~= presets);
    } else {
        lemma_max_preset_id_take_bound(presets, k + 1);
        assert(presets.take(k + 1).drop_last() =~= presets.take(k));
    }
}

/// Which preset a boost of `sats` runs: the one named after the exact
/// amount, else the one named after its last digit, else the configured
/// fallback playlist — the first of the three that the catalog holds.
pub open spec fn spec_chosen_preset(
    presets: Seq<Preset>,
    sats: int,
    boost_playlist: Seq<char>,
) -> Option<Preset> {
    let digits = decimal_int_of(sats);
    let number_name = "BOOST-"@ + digits;
    let endnum_name = "BOOST-"@ + seq![digits.last()];
    match spec_find_preset(presets, number_name) {
        Some(p) => Some(p),
        None => match spec_find_preset(presets, endnum_name) {
            Some(p) => Some(p),
            None => spec_find_preset(presets, boost_playlist),
        },
    }
}

/// Choose the preset for a boost, in order of specificity.
pub fn choose_boost_preset(wled: &WLed, sats: i64, boost_playlist: &str) -> (r: Option<Preset>)
    ensures
        r == spec_chosen_preset(wled.presets@, sats as int, boost_playlist@),
{
    let digits = fmt_i64(sats);
    let digit_count = digits.as_str().unicode_len();
    proof {
        lemma_decimal_int_of_nonempty(sats as int);
    }
    let mut number_name = String::from_str("BOOST-");
    number_name.append(digits.as_str());
    let endnum = digits.as_str().substring_char(digit_count - 1, digit_count);
    let mut endnum_name = String::from_str("BOOST-");
    endnum_name.append(endnum);
    proof {
        assert(endnum_name@ =~= "BOOST-"@ + seq![decimal_int_of(sats as int).last()]);
    }
    match wled.get_preset(number_name.as_str()) {
        Some(p) => Some(p),
        None => match wled.get_preset(endnum_name.as_str()) {
            Some(p) => Some(p),
            None => wled.get_preset(boost_playlist),
        },
    }
}

/// A rendered number always has at least one character.
proof fn lemma_decimal_int_of_nonempty(n: int)
    ensures
        decimal_int_of(n).len() >= 1,
{
}

} // verus!
