//! The dungeon registry: generated levels keyed by depth, so a revisited
//! level keeps its layout; the identification-state tables; and the level
//! transition that freezes one level's entities and thaws another's.

use vstd::prelude::*;
use vstd::string::StringExecFns;
use crate::components::{EntityId, OtherLevelPosition, Position};
use crate::map::{LevelMap, TileType, spec_maps_alike, tile_walkable, spec_tile_walkable};
use crate::map_builders::{BuilderChain, level_builder};
use crate::spawner::RandomTable;
use crate::world::World;

verus! {

/// The registry of generated levels and the item-identification state.
#[derive(Clone, Debug)]
pub struct MasterDungeonMap {
    pub maps: Vec<LevelMap>,
    pub identified_items: Vec<String>,
    pub scroll_mappings: Vec<(String, String)>,
    pub potion_mappings: Vec<(String, String)>,
}

impl MasterDungeonMap {
    /// Depths are stored at most once, and every stored level is
    /// well-formed.
    pub open spec fn wf(self) -> bool {
        &&& forall|i: int, j: int|
            0 <= i < j < self.maps@.len() ==> (#[trigger] self.maps@[i]).depth
                != (#[trigger] self.maps@[j]).depth
        &&& forall|i: int| 0 <= i < self.maps@.len() ==> (#[trigger] self.maps@[i]).wf()
    }

    /// Whether a level is stored for the depth.
    pub open spec fn spec_has_depth(self, depth: int) -> bool {
        exists|i: int| 0 <= i < self.maps@.len() && (#[trigger] self.maps@[i]).depth == depth
    }

    /// The stored level of a depth.
    pub open spec fn spec_map_at(self, depth: int) -> LevelMap {
        self.maps@[choose|i: int|
            0 <= i < self.maps@.len() && (#[trigger] self.maps@[i]).depth == depth]
    }

    /// A fresh registry: no levels, nothing identified, and one obfuscated
    /// name rolled for every scroll and potion tag the raw-data
    /// collaborator knows.
    pub fn new(
        scroll_tags: &Vec<String>,
        potion_tags: &Vec<String>,
        rng: &mut rltk::RandomNumberGenerator,
    ) -> (r: MasterDungeonMap)
        ensures
            r.wf(),
            !r.spec_has_depth(0) && forall|d: int| !r.spec_has_depth(d),
            r.identified_items@.len() == 0,
            r.scroll_mappings@.len() == scroll_tags@.len(),
            forall|i: int|
                0 <= i < scroll_tags@.len() ==> (#[trigger] r.scroll_mappings@[i]).0@
                    == scroll_tags@[i]@,
            forall|i: int|
                0 <= i < scroll_tags@.len() ==> (#[trigger] r.scroll_mappings@[i]).1@.len() >= 5
                    && r.scroll_mappings@[i].1@.take(5) == "Zwoj "@,
            r.potion_mappings@.len() == potion_tags@.len(),
            forall|i: int|
                0 <= i < potion_tags@.len() ==> (#[trigger] r.potion_mappings@[i]).0@
                    == potion_tags@[i]@,
            forall|i: int|
                0 <= i < potion_tags@.len() ==> spec_potion_shape(
                    (#[trigger] r.potion_mappings@[i]).1@,
                ),
    {
        let mut scroll_mappings: Vec<(String, String)> = Vec::new();
        let mut i: usize = 0;
        while i < scroll_tags.len()
            invariant
                i <= scroll_tags@.len(),
                scroll_mappings@.len() == i,
                forall|k: int|
                    0 <= k < i ==> (#[trigger] scroll_mappings@[k]).0@ == scroll_tags@[k]@,
                forall|k: int|
                    0 <= k < i ==> (#[trigger] scroll_mappings@[k]).1@.len() >= 5
                        && scroll_mappings@[k].1@.take(5) == "Zwoj "@,
            decreases scroll_tags@.len() - i,
        {
            let masked = make_scroll_name(rng);
            scroll_mappings.push((scroll_tags[i].clone(), masked));
            i = i + 1;
        }
        let mut potion_mappings: Vec<(String, String)> = Vec::new();
        let mut used: Vec<String> = Vec::new();
        let mut j: usize = 0;
        while j < potion_tags.len()
            invariant
                j <= potion_tags@.len(),
                potion_mappings@.len() == j,
                forall|k: int|
                    0 <= k < j ==> (#[trigger] potion_mappings@[k]).0@ == potion_tags@[k]@,
                forall|k: int|
                    0 <= k < j ==> spec_potion_shape((#[trigger] potion_mappings@[k]).1@),
            decreases potion_tags@.len() - j,
        {
            let masked = make_potion_name(rng, &used);
            used.push(masked.clone());
            potion_mappings.push((potion_tags[j].clone(), masked));
            j = j + 1;
        }
        MasterDungeonMap {
            maps: Vec::new(),
            identified_items: Vec::new(),
            scroll_mappings,
            potion_mappings,
        }
    }

    /// Store a level under its depth, replacing any level stored there.
    pub fn store_map(&mut self, map: &LevelMap)
        requires
            old(self).wf(),
            map.wf(),
        ensures
            final(self).wf(),
            *final(self) == (MasterDungeonMap { maps: final(self).maps, ..*old(self) }),
            final(self).spec_has_depth(map.depth as int),
            spec_maps_alike(final(self).spec_map_at(map.depth as int), *map),
            forall|d: int|
                d != map.depth ==> #[trigger] final(self).spec_has_depth(d)
                    == old(self).spec_has_depth(d),
            forall|d: int|
                d != map.depth && old(self).spec_has_depth(d)
                    ==> #[trigger] final(self).spec_map_at(d) == old(self).spec_map_at(d),
    {
        let n = self.maps.len();
        let mut found: Option<usize> = Option::None;
        let mut i: usize = 0;
        while i < n
            invariant
                n == self.maps@.len(),
                i <= n,
                found matches Option::Some(k) ==> k < n && self.maps@[k as int].depth == map.depth,
                found is None ==> forall|k: int|
                    0 <= k < i ==> (#[trigger] self.maps@[k]).depth != map.depth,
            decreases n - i,
        {
            if self.maps[i].depth == map.depth {
                found = Option::Some(i);
            }
            i = i + 1;
        }
        let copy = map.duplicate();
        match found {
            Option::Some(k) => {
                self.maps[k] = copy;
                proof {
                    assert(self.maps@ =~= old(self).maps@.update(k as int, self.maps@[k as int]));
                    assert(self.maps@[k as int].depth == map.depth);
                    lemma_store_frame(old(self).maps@, self.maps@, k as int, map.depth as int);
                    lemma_registry_lookup(*old(self), *self, map.depth as int);
                    assert(spec_maps_alike(self.spec_map_at(map.depth as int), *map)) by {
                        let i1 = choose|i: int|
                            0 <= i < self.maps@.len() && (#[trigger] self.maps@[i]).depth
                                == map.depth as int;
                        assert(i1 == k as int || self.maps@[i1].depth == self.maps@[k as int].depth);
                    }
                }
            },
            Option::None => {
                self.maps.push(copy);
                proof {
                    assert(self.maps@[self.maps@.len() - 1].depth == map.depth);
                    lemma_store_frame_push(old(self).maps@, self.maps@, map.depth as int);
                    lemma_registry_lookup(*old(self), *self, map.depth as int);
                    assert(spec_maps_alike(self.spec_map_at(map.depth as int), *map)) by {
                        let i1 = choose|i: int|
                            0 <= i < self.maps@.len() && (#[trigger] self.maps@[i]).depth
                                == map.depth as int;
                        assert(self.maps@[i1].depth == self.maps@[self.maps@.len() - 1].depth);
                    }
                }
            },
        }
    }

    /// The stored level of a depth, copied out; nothing when the depth was
    /// never generated.
    pub fn get_map(&self, depth: i32) -> (r: Option<LevelMap>)
        requires
            self.wf(),
        ensures
            r is Some <==> self.spec_has_depth(depth as int),
            r matches Option::Some(m) ==> spec_maps_alike(m, self.spec_map_at(depth as int))
                && m.wf(),
    {
        let n = self.maps.len();
        let mut i: usize = 0;
        while i < n
            invariant
                self.wf(),
                n == self.maps@.len(),
                i <= n,
                forall|k: int| 0 <= k < i ==> (#[trigger] self.maps@[k]).depth != depth,
            decreases n - i,
        {
            if self.maps[i].depth == depth {
                let r = self.maps[i].duplicate();
                proof {
                    assert(self.spec_has_depth(depth as int));
                    assert(self.maps@[choose|k: int|
                        0 <= k < self.maps@.len() && (#[trigger] self.maps@[k]).depth
                            == depth as int] == self.maps@[i as int]);
                }
                return Option::Some(r);
            }
            i = i + 1;
        }
        Option::None
    }
}

/// Lookups away from the stored depth are unchanged by a store.
proof fn lemma_registry_lookup(olds: MasterDungeonMap, news: MasterDungeonMap, depth: int)
    requires
        olds.wf(),
        news.wf(),
        olds.maps@.len() <= news.maps@.len(),
        news.maps@.len() <= olds.maps@.len() + 1,
        forall|i: int|
            0 <= i < olds.maps@.len() && (#[trigger] olds.maps@[i]).depth != depth
                ==> news.maps@[i] == olds.maps@[i],
        forall|i: int|
            0 <= i < olds.maps@.len() && (#[trigger] olds.maps@[i]).depth == depth
                ==> news.maps@[i].depth == depth,
        news.maps@.len() > olds.maps@.len() ==> news.maps@.last().depth == depth,
    ensures
        forall|d: int|
            d != depth ==> #[trigger] news.spec_has_depth(d) == olds.spec_has_depth(d),
        forall|d: int|
            d != depth && olds.spec_has_depth(d) ==> #[trigger] news.spec_map_at(d)
                == olds.spec_map_at(d),
{
    assert forall|d: int|
        d != depth implies #[trigger] news.spec_has_depth(d) == olds.spec_has_depth(d) by {
        if olds.spec_has_depth(d) {
            let i0 = choose|i: int|
                0 <= i < olds.maps@.len() && (#[trigger] olds.maps@[i]).depth == d;
            assert(news.maps@[i0] == olds.maps@[i0]);
        }
        if news.spec_has_depth(d) {
            let i1 = choose|i: int|
                0 <= i < news.maps@.len() && (#[trigger] news.maps@[i]).depth == d;
            assert(i1 < olds.maps@.len());
            assert(olds.maps@[i1].depth == d || news.maps@[i1] == olds.maps@[i1]);
            if olds.maps@[i1].depth == depth {
                assert(news.maps@[i1].depth == depth);
            }
        }
    }
    assert forall|d: int|
        d != depth && olds.spec_has_depth(d) implies #[trigger] news.spec_map_at(d)
        == olds.spec_map_at(d) by {
        let i0 = choose|i: int|
            0 <= i < olds.maps@.len() && (#[trigger] olds.maps@[i]).depth == d;
        assert(news.maps@[i0] == olds.maps@[i0]);
        let i1 = choose|i: int|
            0 <= i < news.maps@.len() && (#[trigger] news.maps@[i]).depth == d;
        if i0 != i1 {
            assert(news.maps@[i0].depth == news.maps@[i1].depth);
        }
    }
}

/// After an in-place replacement, every other depth's entry is untouched.
proof fn lemma_store_frame(olds: Seq<LevelMap>, news: Seq<LevelMap>, k: int, depth: int)
    requires
        0 <= k < olds.len(),
        news == olds.update(k, news[k]),
        news[k].depth == depth,
        olds[k].depth == depth,
        forall|i: int, j: int|
            0 <= i < j < olds.len() ==> (#[trigger] olds[i]).depth != (#[trigger] olds[j]).depth,
    ensures
        forall|i: int, j: int|
            0 <= i < j < news.len() ==> (#[trigger] news[i]).depth != (#[trigger] news[j]).depth,
{
}

/// After a push of a fresh depth, every other depth's entry is untouched.
proof fn lemma_store_frame_push(olds: Seq<LevelMap>, news: Seq<LevelMap>, depth: int)
    requires
        news.len() == olds.len() + 1,
        forall|i: int| 0 <= i < olds.len() ==> news[i] == olds[i],
        news.last().depth == depth,
        forall|i: int| 0 <= i < olds.len() ==> (#[trigger] olds[i]).depth != depth,
        forall|i: int, j: int|
            0 <= i < j < olds.len() ==> (#[trigger] olds[i]).depth != (#[trigger] olds[j]).depth,
    ensures
        forall|i: int, j: int|
            0 <= i < j < news.len() ==> (#[trigger] news[i]).depth != (#[trigger] news[j]).depth,
{
    assert forall|i: int, j: int|
        0 <= i < j < news.len() implies (#[trigger] news[i]).depth != (#[trigger] news[j]).depth by {
        if j == news.len() - 1 {
            assert(news[i] == olds[i]);
        }
    }
}

/// Whether a character sequence is one of the scroll consonant syllables.
pub open spec fn spec_consonant_syllable(s: Seq<char>) -> bool {
    ||| s == "b"@
    ||| s == "c"@
    ||| s == "ch"@
    ||| s == "cz"@
    ||| s == "d"@
    ||| s == "dz"@
    ||| s == "f"@
    ||| s == "g"@
    ||| s == "h"@
    ||| s == "j"@
    ||| s == "k"@
    ||| s == "l"@
    ||| s == "m"@
    ||| s == "n"@
    ||| s == "p"@
    ||| s == "r"@
    ||| s == "rz"@
    ||| s == "s"@
    ||| s == "sz"@
    ||| s == "t"@
    ||| s == "w"@
    ||| s == "z"@
    ||| s == "dzi"@
    ||| s == "si"@
    ||| s == "zi"@
    ||| s == "ni"@
    ||| s == "ci"@
}

/// Whether a character sequence is one of the scroll vowel syllables.
pub open spec fn spec_vowel_syllable(s: Seq<char>) -> bool {
    ||| s == "a"@
    ||| s == "e"@
    ||| s == "en"@
    ||| s == "i"@
    ||| s == "o"@
    ||| s == "on"@
    ||| s == "u"@
    ||| s == "y"@
}

/// Whether `tail` is exactly `count` syllables from the scroll tables,
/// alternating and starting with a consonant when `consonant_first`.
pub open spec fn spec_babble(tail: Seq<char>, count: int, consonant_first: bool) -> bool
    decreases count,
{
    if count <= 0 {
        tail.len() == 0
    } else {
        exists|syl: Seq<char>|
            {
                &&& if consonant_first {
                    spec_consonant_syllable(syl)
                } else {
                    spec_vowel_syllable(syl)
                }
                &&& syl.len() <= tail.len()
                &&& #[trigger] tail.take(syl.len() as int) == syl
                &&& spec_babble(tail.skip(syl.len() as int), count - 1, !consonant_first)
            }
    }
}

/// A babble grows by one syllable of the right alternation parity.
proof fn lemma_babble_append(tail: Seq<char>, count: int, consonant_first: bool, syl: Seq<char>)
    requires
        count >= 0,
        spec_babble(tail, count, consonant_first),
        if count % 2 == 0 {
            if consonant_first {
                spec_consonant_syllable(syl)
            } else {
                spec_vowel_syllable(syl)
            }
        } else {
            if consonant_first {
                spec_vowel_syllable(syl)
            } else {
                spec_consonant_syllable(syl)
            }
        },
    ensures
        spec_babble(tail + syl, count + 1, consonant_first),
    decreases count,
{
    if count == 0 {
        assert(tail.len() == 0);
        assert(tail + syl =~= syl);
        assert((tail + syl).take(syl.len() as int) =~= syl);
        assert((tail + syl).skip(syl.len() as int) =~= Seq::<char>::empty());
        assert(spec_babble((tail + syl).skip(syl.len() as int), count, !consonant_first));
        assert(spec_babble(tail + syl, count + 1, consonant_first));
    } else {
        let s0 = choose|s0: Seq<char>|
            {
                &&& if consonant_first {
                    spec_consonant_syllable(s0)
                } else {
                    spec_vowel_syllable(s0)
                }
                &&& s0.len() <= tail.len()
                &&& #[trigger] tail.take(s0.len() as int) == s0
                &&& spec_babble(tail.skip(s0.len() as int), count - 1, !consonant_first)
            };
        lemma_babble_append(tail.skip(s0.len() as int), count - 1, !consonant_first, syl);
        assert((tail + syl).take(s0.len() as int) =~= s0);
        assert((tail + syl).skip(s0.len() as int) =~= tail.skip(s0.len() as int) + syl);
        assert(spec_babble(tail + syl, count + 1, consonant_first));
    }
}

/// A rolled obfuscated scroll name: the scroll prefix followed by five to
/// twelve syllables from the two tables, alternating consonant-first.
pub fn make_scroll_name(rng: &mut rltk::RandomNumberGenerator) -> (r: String)
    ensures
        r@.len() >= 5,
        r@.take(5) == "Zwoj "@,
        exists|count: int| 5 <= count <= 12 && spec_babble(r@.skip(5), count, true),
{
    let mut name = String::from_str("Zwoj ");
    proof {
        reveal_strlit("Zwoj ");
        assert(name@.skip(5) =~= Seq::<char>::empty());
        assert(name@.take(5) =~= "Zwoj "@);
    }
    let length = 4 + rng.roll_dice(1, 8);
    let mut i: i32 = 0;
    while i < length
        invariant
            0 <= i <= length,
            5 <= length <= 12,
            name@.len() >= 5,
            name@.take(5) == "Zwoj "@,
            spec_babble(name@.skip(5), i as int, true),
        decreases length - i,
    {
        let ghost before = name@;
        if i % 2 == 0 {
            let c = match rng.roll_dice(1, 27) {
                1 => "b",
                2 => "c",
                3 => "ch",
                4 => "cz",
                5 => "d",
                6 => "dz",
                7 => "f",
                8 => "g",
                9 => "h",
                10 => "j",
                11 => "k",
                12 => "l",
                13 => "m",
                14 => "n",
                15 => "p",
                16 => "r",
                17 => "rz",
                18 => "s",
                19 => "sz",
                20 => "t",
                21 => "w",
                22 => "z",
                23 => "dzi",
                24 => "si",
                25 => "zi",
                26 => "ni",
                _ => "ci",
            };
            name.append(c);
            proof {
                assert(spec_consonant_syllable(c@));
                lemma_babble_append(before.skip(5), i as int, true, c@);
                assert(name@.skip(5) =~= before.skip(5) + c@);
                assert(name@.take(5) =~= before.take(5));
            }
        } else {
            let c = match rng.roll_dice(1, 8) {
                1 => "a",
                2 => "e",
                3 => "en",
                4 => "i",
                5 => "o",
                6 => "on",
                7 => "u",
                _ => "y",
            };
            name.append(c);
            proof {
                assert(spec_vowel_syllable(c@));
                lemma_babble_append(before.skip(5), i as int, true, c@);
                assert(name@.skip(5) =~= before.skip(5) + c@);
                assert(name@.take(5) =~= before.take(5));
            }
        }
        i = i + 1;
    }
    proof {
        assert(5 <= length <= 12 && spec_babble(name@.skip(5), length as int, true));
    }
    name
}

/// The first potion adjective of an index.
pub open spec fn spec_adj1(i: int) -> Seq<char> {
    if i == 0 {
        "Zlocisty"@
    } else if i == 1 {
        "Brazowy"@
    } else if i == 2 {
        "Ladny"@
    } else if i == 3 {
        "Paskudny"@
    } else if i == 4 {
        "Spalony"@
    } else if i == 5 {
        "Nadgnity"@
    } else {
        "Pulchny"@
    }
}

/// The second potion adjective of an index, with its separating space.
pub open spec fn spec_adj2(j: int) -> Seq<char> {
    if j == 0 {
        " pachnacy"@
    } else if j == 1 {
        " smierdzacy"@
    } else if j == 2 {
        " smaczny"@
    } else if j == 3 {
        " obrzydliwy"@
    } else if j == 4 {
        " zachecajacy"@
    } else if j == 5 {
        " elegancki"@
    } else {
        " zepsuty"@
    }
}

/// The full potion name of an adjective pair.
pub open spec fn spec_potion_combo(i: int, j: int) -> Seq<char> {
    spec_adj1(i) + spec_adj2(j) + " wypiek"@
}

/// Whether a character sequence is some potion name.
pub open spec fn spec_potion_shape(s: Seq<char>) -> bool {
    exists|i: int, j: int| 0 <= i < 7 && 0 <= j < 7 && s == spec_potion_combo(i, j)
}

/// Whether a name is already among the used ones.
pub open spec fn spec_name_taken(used: Seq<String>, s: Seq<char>) -> bool {
    exists|k: int| 0 <= k < used.len() && (#[trigger] used[k])@ == s
}

/// Whether every potion name is already used.
pub open spec fn spec_all_potion_names_taken(used: Seq<String>) -> bool {
    forall|i: int, j: int|
        0 <= i < 7 && 0 <= j < 7 ==> spec_name_taken(used, #[trigger] spec_potion_combo(i, j))
}

/// Build the potion name of an adjective pair.
fn build_potion_combo(i: i32, j: i32) -> (r: String)
    requires
        0 <= i < 7,
        0 <= j < 7,
    ensures
        r@ == spec_potion_combo(i as int, j as int),
{
    let first = match i {
        0 => "Zlocisty",
        1 => "Brazowy",
        2 => "Ladny",
        3 => "Paskudny",
        4 => "Spalony",
        5 => "Nadgnity",
        _ => "Pulchny",
    };
    let second = match j {
        0 => " pachnacy",
        1 => " smierdzacy",
        2 => " smaczny",
        3 => " obrzydliwy",
        4 => " zachecajacy",
        5 => " elegancki",
        _ => " zepsuty",
    };
    let mut name = String::from_str(first);
    name.append(second);
    name.append(" wypiek");
    name
}

/// Whether the name is among the used ones.
fn potion_name_taken(used_names: &Vec<String>, name: &String) -> (r: bool)
    ensures
        r == spec_name_taken(used_names@, name@),
{
    let mut k: usize = 0;
    let mut taken = false;
    while k < used_names.len()
        invariant
            k <= used_names@.len(),
            taken == exists|m: int| 0 <= m < k && (#[trigger] used_names@[m])@ == name@,
        decreases used_names@.len() - k,
    {
        if used_names[k] == *name {
            taken = true;
        }
        k = k + 1;
    }
    taken
}

/// A rolled obfuscated potion name: two adjectives around the pastry
/// noun. Random draws are tried first; when they keep landing on used
/// names, every combination is scanned, so the result is fresh whenever
/// any fresh combination remains.
pub fn make_potion_name(rng: &mut rltk::RandomNumberGenerator, used_names: &Vec<String>) -> (r:
    String)
    ensures
        spec_potion_shape(r@),
        !spec_all_potion_names_taken(used_names@) ==> !spec_name_taken(used_names@, r@),
{
    let mut tries: usize = 0;
    while tries < 50
        invariant
            tries <= 50,
        decreases 50 - tries,
    {
        let i = rng.roll_dice(1, 7) - 1;
        let j = rng.roll_dice(1, 7) - 1;
        let name = build_potion_combo(i, j);
        if !potion_name_taken(used_names, &name) {
            return name;
        }
        tries = tries + 1;
    }
    // The random draws all landed on used names: scan every combination.
    let mut i: i32 = 0;
    while i < 7
        invariant
            0 <= i <= 7,
            forall|i0: int, j0: int|
                0 <= i0 < i && 0 <= j0 < 7 ==> spec_name_taken(
                    used_names@,
                    #[trigger] spec_potion_combo(i0, j0),
                ),
        decreases 7 - i,
    {
        let mut j: i32 = 0;
        while j < 7
            invariant
                0 <= i < 7,
                0 <= j <= 7,
                forall|i0: int, j0: int|
                    0 <= i0 < i && 0 <= j0 < 7 ==> spec_name_taken(
                        used_names@,
                        #[trigger] spec_potion_combo(i0, j0),
                    ),
                forall|j0: int|
                    0 <= j0 < j ==> spec_name_taken(
                        used_names@,
                        #[trigger] spec_potion_combo(i as int, j0),
                    ),
            decreases 7 - j,
        {
            let name = build_potion_combo(i, j);
            if !potion_name_taken(used_names, &name) {
                return name;
            }
            j = j + 1;
        }
        i = i + 1;
    }
    proof {
        assert(spec_all_potion_names_taken(used_names@));
    }
    build_potion_combo(0, 0)
}

/// Move every positioned entity but the player into frozen storage tagged
/// with the departing depth.
pub fn freeze_level_entities(world: &mut World, player: EntityId, depth: i32)
    requires
        old(world).wf(),
    ensures
        final(world).wf(),
        *final(world) == (World {
            position: final(world).position,
            other_level_position: final(world).other_level_position,
            ..*old(world)
        }),
        forall|e: int|
            0 <= e < old(world).spec_len() ==> #[trigger] final(world).position@[e] == if e
                != player && old(world).position@[e] is Some {
                Option::<Position>::None
            } else {
                old(world).position@[e]
            },
        forall|e: int|
            0 <= e < old(world).spec_len() ==> #[trigger] final(world).other_level_position@[e]
                == if e != player && old(world).position@[e] is Some {
                Option::Some(
                    OtherLevelPosition {
                        x: old(world).position@[e]->Some_0.x,
                        y: old(world).position@[e]->Some_0.y,
                        depth,
                    },
                )
            } else {
                old(world).other_level_position@[e]
            },
{
    let n = world.len();
    let mut e: usize = 0;
    while e < n
        invariant
            world.wf(),
            n == world.spec_len(),
            e <= n,
            *world == (World {
                position: world.position,
                other_level_position: world.other_level_position,
                ..*old(world)
            }),
            forall|j: int|
                0 <= j < e ==> #[trigger] world.position@[j] == if j != player && old(
                    world,
                ).position@[j] is Some {
                    Option::<Position>::None
                } else {
                    old(world).position@[j]
                },
            forall|j: int|
                0 <= j < e ==> #[trigger] world.other_level_position@[j] == if j != player && old(
                    world,
                ).position@[j] is Some {
                    Option::Some(
                        OtherLevelPosition {
                            x: old(world).position@[j]->Some_0.x,
                            y: old(world).position@[j]->Some_0.y,
                            depth,
                        },
                    )
                } else {
                    old(world).other_level_position@[j]
                },
            forall|j: int| e <= j < n ==> #[trigger] world.position@[j] == old(world).position@[j],
            forall|j: int|
                e <= j < n ==> #[trigger] world.other_level_position@[j] == old(
                    world,
                ).other_level_position@[j],
        decreases n - e,
    {
        if e != player {
            if let Option::Some(pos) = world.position[e] {
                world.other_level_position[e] = Option::Some(
                    OtherLevelPosition { x: pos.x, y: pos.y, depth },
                );
                world.position[e] = Option::None;
            }
        }
        e = e + 1;
    }
}

/// Move every entity frozen at the arriving depth, but the player, back
/// onto the map.
pub fn thaw_level_entities(world: &mut World, player: EntityId, depth: i32)
    requires
        old(world).wf(),
    ensures
        final(world).wf(),
        *final(world) == (World {
            position: final(world).position,
            other_level_position: final(world).other_level_position,
            ..*old(world)
        }),
        forall|e: int|
            0 <= e < old(world).spec_len() ==> #[trigger] final(world).position@[e] == if e
                != player && old(world).other_level_position@[e] is Some && old(
                world,
            ).other_level_position@[e]->Some_0.depth == depth {
                Option::Some(
                    Position {
                        x: old(world).other_level_position@[e]->Some_0.x,
                        y: old(world).other_level_position@[e]->Some_0.y,
                    },
                )
            } else {
                old(world).position@[e]
            },
        forall|e: int|
            0 <= e < old(world).spec_len() ==> #[trigger] final(world).other_level_position@[e]
                == if e != player && old(world).other_level_position@[e] is Some && old(
                world,
            ).other_level_position@[e]->Some_0.depth == depth {
                Option::<OtherLevelPosition>::None
            } else {
                old(world).other_level_position@[e]
            },
{
    let n = world.len();
    let mut e: usize = 0;
    while e < n
        invariant
            world.wf(),
            n == world.spec_len(),
            e <= n,
            *world == (World {
                position: world.position,
                other_level_position: world.other_level_position,
                ..*old(world)
            }),
            forall|j: int|
                0 <= j < e ==> #[trigger] world.position@[j] == if j != player && old(
                    world,
                ).other_level_position@[j] is Some && old(
                    world,
                ).other_level_position@[j]->Some_0.depth == depth {
                    Option::Some(
                        Position {
                            x: old(world).other_level_position@[j]->Some_0.x,
                            y: old(world).other_level_position@[j]->Some_0.y,
                        },
                    )
                } else {
                    old(world).position@[j]
                },
            forall|j: int|
                0 <= j < e ==> #[trigger] world.other_level_position@[j] == if j != player && old(
                    world,
                ).other_level_position@[j] is Some && old(
                    world,
                ).other_level_position@[j]->Some_0.depth == depth {
                    Option::<OtherLevelPosition>::None
                } else {
                    old(world).other_level_position@[j]
                },
            forall|j: int| e <= j < n ==> #[trigger] world.position@[j] == old(world).position@[j],
            forall|j: int|
                e <= j < n ==> #[trigger] world.other_level_position@[j] == old(
                    world,
                ).other_level_position@[j],
        decreases n - e,
    {
        if e != player {
            if let Option::Some(op) = world.other_level_position[e] {
                if op.depth == depth {
                    world.position[e] = Option::Some(Position { x: op.x, y: op.y });
                    world.other_level_position[e] = Option::None;
                }
            }
        }
        e = e + 1;
    }
}

/// Move to another depth. A depth the registry already holds is reused
/// verbatim, the player placed at the coordinates of the stored level's
/// last matching staircase (the downward one when coming from below, else
/// the upward one); nothing is returned. A fresh depth runs its builder
/// chain, places the upward staircase at the starting position on every
/// level below the first, stands the player on the starting position,
/// stores the finished level in the registry, and hands back the
/// generation history.
pub fn level_transition(
    current_map: &mut LevelMap,
    dm: &mut MasterDungeonMap,
    world: &mut World,
    player: EntityId,
    player_pos: &mut Position,
    new_depth: i32,
    offset: i32,
    width: i32,
    height: i32,
    rng: &mut rltk::RandomNumberGenerator,
    spawn_table: RandomTable,
) -> (history: Option<Vec<LevelMap>>)
    requires
        old(dm).wf(),
        old(world).wf(),
        3 <= width <= crate::map::MAX_MAP_SIDE,
        3 <= height <= crate::map::MAX_MAP_SIDE,
    ensures
        final(dm).wf(),
        final(world).wf(),
        *final(world) == (World { position: final(world).position, ..*old(world) }),
        forall|e: int|
            0 <= e < old(world).spec_len() && e != player ==> #[trigger] final(world).position@[e]
                == old(world).position@[e],
        old(dm).spec_has_depth(new_depth as int) ==> {
            let stored = old(dm).spec_map_at(new_depth as int);
            let kind = if offset < 0 {
                TileType::DownStairs
            } else {
                TileType::UpStairs
            };
            &&& history is None
            &&& spec_maps_alike(*final(current_map), stored)
            &&& *final(dm) == *old(dm)
            &&& (exists|t: int| 0 <= t < stored.tiles@.len() && stored.tiles@[t] == kind)
                ==> exists|last: int|
                {
                    &&& 0 <= last < stored.tiles@.len()
                    &&& stored.tiles@[last] == kind
                    &&& forall|t: int| last < t < stored.tiles@.len() ==> stored.tiles@[t] != kind
                    &&& *final(player_pos) == (Position {
                        x: (last % (stored.width as int)) as i32,
                        y: (last / (stored.width as int)) as i32,
                    })
                    &&& player < old(world).spec_len() ==> final(world).position@[player as int]
                        == Option::Some(*final(player_pos))
                }
            &&& !(exists|t: int| 0 <= t < stored.tiles@.len() && stored.tiles@[t] == kind) ==> {
                &&& *final(player_pos) == *old(player_pos)
                &&& final(world).position@ == old(world).position@
            }
        },
        !old(dm).spec_has_depth(new_depth as int) ==> {
            &&& history is Some
            &&& final(current_map).wf()
            &&& final(current_map).depth == new_depth
            &&& final(dm).spec_has_depth(new_depth as int)
            &&& spec_maps_alike(final(dm).spec_map_at(new_depth as int), *final(current_map))
            &&& (exists|t: int|
                0 <= t < final(current_map).tiles@.len() && crate::map::spec_tile_walkable(
                    #[trigger] final(current_map).tiles@[t],
                )) ==> {
                let pos = *final(player_pos);
                &&& 0 <= pos.x < final(current_map).width
                &&& 0 <= pos.y < final(current_map).height
                &&& (player < old(world).spec_len() ==> final(world).position@[player as int]
                    == Option::Some(pos))
                &&& (new_depth > 1 ==> final(current_map).tiles@[crate::map::spec_xy_idx(
                    final(current_map).width as int,
                    pos.x as int,
                    pos.y as int,
                )] == TileType::UpStairs)
                &&& (new_depth <= 1 ==> crate::map::spec_tile_walkable(
                    final(current_map).tiles@[crate::map::spec_xy_idx(
                        final(current_map).width as int,
                        pos.x as int,
                        pos.y as int,
                    )],
                ))
            }
            &&& !(exists|t: int|
                0 <= t < final(current_map).tiles@.len() && crate::map::spec_tile_walkable(
                    #[trigger] final(current_map).tiles@[t],
                )) ==> {
                &&& *final(player_pos) == *old(player_pos)
                &&& final(world).position@ == old(world).position@
            }
        },
{
    let existing = dm.get_map(new_depth);
    match existing {
        Option::Some(found) => {
            // Reuse the stored level and stand the player on its last
            // matching staircase.
            let stair_kind = if offset < 0 {
                TileType::DownStairs
            } else {
                TileType::UpStairs
            };
            let count = found.tiles.len();
            let w = found.width as usize;
            let ghost stored = old(dm).spec_map_at(new_depth as int);
            let mut t: usize = 0;
            let ghost mut last_found: Option<int> = Option::None;
            while t < count
                invariant
                    found.wf(),
                    count == found.tiles@.len(),
                    w == found.width,
                    t <= count,
                    world.wf(),
                    world.spec_len() == old(world).spec_len(),
                    found.tiles@ == stored.tiles@,
                    found.width == stored.width,
                    found.height == stored.height,
                    *world == (World { position: world.position, ..*old(world) }),
                    forall|e: int|
                        0 <= e < old(world).spec_len() && e != player
                            ==> #[trigger] world.position@[e] == old(world).position@[e],
                    last_found matches Option::Some(last) ==> {
                        &&& 0 <= last < t
                        &&& stored.tiles@[last] == stair_kind
                        &&& forall|u: int| last < u < t ==> stored.tiles@[u] != stair_kind
                        &&& *player_pos == (Position {
                            x: (last % (stored.width as int)) as i32,
                            y: (last / (stored.width as int)) as i32,
                        })
                        &&& player < old(world).spec_len() ==> world.position@[player as int]
                            == Option::Some(*player_pos)
                    },
                    last_found is None ==> {
                        &&& forall|u: int| 0 <= u < t ==> stored.tiles@[u] != stair_kind
                        &&& *player_pos == *old(player_pos)
                        &&& world.position@ == old(world).position@
                    },
                decreases count - t,
            {
                if found.tiles[t] == stair_kind {
                    proof {
                        crate::map_builders::connectivity::lemma_idx_bounds(
                            t as int,
                            found.width as int,
                            found.height as int,
                        );
                    }
                    let px = (t % w) as i32;
                    let py = (t / w) as i32;
                    *player_pos = Position { x: px, y: py };
                    if player < world.len() {
                        world.position[player] = Option::Some(Position { x: px, y: py });
                    }
                    proof {
                        last_found = Option::Some(t as int);
                    }
                }
                t = t + 1;
            }
            *current_map = found;
            Option::None
        },
        Option::None => {
            // Build the level fresh and remember it.
            let mut builder = level_builder(new_depth, width, height, rng, spawn_table);
            builder.build_map(rng);
            if new_depth > 1 {
                if let Option::Some(pos) = builder.build_data.starting_position {
                    let up_idx = builder.build_data.map.xy_idx(pos.x, pos.y);
                    builder.build_data.map.tiles[up_idx] = TileType::UpStairs;
                    proof {
                        assert forall|u: int|
                            0 <= u < builder.build_data.map.tiles@.len()
                                implies crate::map::spec_tile_walkable(
                                #[trigger] builder.build_data.map.tiles@[u],
                            ) || !crate::map::spec_tile_walkable(
                                builder.build_data.map.tiles@[u],
                            ) by {}
                    }
                }
            }
            if let Option::Some(pos) = builder.build_data.starting_position {
                *player_pos = pos;
                if player < world.len() {
                    world.position[player] = Option::Some(pos);
                }
            }
            *current_map = builder.build_data.map.duplicate();
            dm.store_map(&builder.build_data.map);
            proof {
                assert(spec_maps_alike(dm.spec_map_at(new_depth as int), *current_map));
                if builder.build_data.starting_position is None {
                    assert forall|u: int|
                        0 <= u < current_map.tiles@.len()
                            implies !crate::map::spec_tile_walkable(
                            #[trigger] current_map.tiles@[u],
                        ) by {}
                } else {
                    let pos = builder.build_data.starting_position->Some_0;
                    let idx = crate::map::spec_xy_idx(
                        current_map.width as int,
                        pos.x as int,
                        pos.y as int,
                    );
                    crate::map::lemma_grid_index(
                        current_map.width as int,
                        current_map.height as int,
                        pos.x as int,
                        pos.y as int,
                    );
                    assert(crate::map::spec_tile_walkable(current_map.tiles@[idx]));
                }
            }
            let mut history: Vec<LevelMap> = Vec::new();
            let mut h: usize = 0;
            while h < builder.build_data.history.len()
                invariant
                    world.wf(),
                    dm.wf(),
                decreases builder.build_data.history@.len() - h,
            {
                history.push(builder.build_data.history[h].duplicate());
                h = h + 1;
            }
            Option::Some(history)
        },
    }
}

} // verus!
