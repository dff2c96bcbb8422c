//! The sky: an ordered collection of stars, each a direction vector, a
//! brightness and a display name.  Transforms never mutate a sky; they
//! build a new one, entry for entry, preserving order, brightness and
//! names.

use vstd::prelude::*;
use vstd::seq_lib::*;
use vstd::string::StringExecFns;
use crate::catalog::greek_names_map;
use crate::fixed::MICRO;
use crate::quat::{qrot_rounded, Quat, QUAT_COMPONENT_MAX, ROTATE_COORD_MAX};
use crate::vec3::{sub_fits, vec3i_sub, Vec3};

verus! {

/// Brightness floor for catalog stars, on the millionths scale: a star
/// at or below 0.01 never enters a sky.
pub const BRIGHTNESS_FLOOR: u32 = 10_000;

/// Normalized visual intensity on the fixed-point scale: `MICRO` parts
/// are full brightness 1.  Values slightly above that are possible for
/// stars brighter than the reference magnitude.
#[derive(Clone, Copy, Debug, PartialEq, Eq)]
pub struct Brightness {
    pub micros: u32,
}

impl Brightness {
    pub fn new(micros: u32) -> (r: Brightness)
        ensures
            r.micros == micros,
    {
        Brightness { micros }
    }
}

/// One star: where it stands relative to the observer, how bright it
/// is, and what to print beside it.
#[derive(Clone, Debug, PartialEq)]
pub struct StarEntry {
    pub pos: Vec3,
    pub brightness: Brightness,
    pub name: String,
}

/// The entries bright enough to keep, in their original order.
pub open spec fn visible_entries(s: Seq<StarEntry>) -> Seq<StarEntry> {
    s.filter(|e: StarEntry| e.brightness.micros > BRIGHTNESS_FLOOR)
}

/// `e` inserted into `s` from the right, behind every element of equal
/// brightness: the insertion step of a stable ascending sort.
pub open spec fn insert_by_brightness(e: StarEntry, s: Seq<StarEntry>) -> Seq<StarEntry>
    decreases s.len(),
{
    if s.len() == 0 {
        seq![e]
    } else if s.last().brightness.micros <= e.brightness.micros {
        s.push(e)
    } else {
        insert_by_brightness(e, s.drop_last()).push(s.last())
    }
}

/// `s` sorted ascending by brightness, stably: entries of equal
/// brightness keep their relative order.
pub open spec fn sort_by_brightness(s: Seq<StarEntry>) -> Seq<StarEntry>
    decreases s.len(),
{
    if s.len() == 0 {
        s
    } else {
        insert_by_brightness(s.last(), sort_by_brightness(s.drop_last()))
    }
}

/// Insertion grows a sequence by one.
pub proof fn lemma_insert_by_brightness_len(e: StarEntry, s: Seq<StarEntry>)
    ensures
        insert_by_brightness(e, s).len() == s.len() + 1,
    decreases s.len(),
{
    if s.len() > 0 && !(s.last().brightness.micros <= e.brightness.micros) {
        lemma_insert_by_brightness_len(e, s.drop_last());
    }
}

/// Sorting keeps the length.
pub proof fn lemma_sort_by_brightness_len(s: Seq<StarEntry>)
    ensures
        sort_by_brightness(s).len() == s.len(),
    decreases s.len(),
{
    if s.len() > 0 {
        lemma_sort_by_brightness_len(s.drop_last());
        lemma_insert_by_brightness_len(s.last(), sort_by_brightness(s.drop_last()));
    }
}

/// Where the insertion lands: if everything from `j` on is brighter
/// than `e`, and what stands just before `j` is not, then inserting `e`
/// splits `s` exactly at `j`.
proof fn lemma_insert_by_brightness_at(e: StarEntry, s: Seq<StarEntry>, j: int)
    requires
        0 <= j <= s.len(),
        forall|k: int|
            j <= k < s.len() ==> (#[trigger] s[k]).brightness.micros > e.brightness.micros,
        j == 0 || s[j - 1].brightness.micros <= e.brightness.micros,
    ensures
        insert_by_brightness(e, s) == s.subrange(0, j) + seq![e] + s.subrange(j, s.len() as int),
    decreases s.len(),
{
    if j == s.len() {
        if s.len() == 0 {
            assert(insert_by_brightness(e, s) =~= s.subrange(0, j) + seq![e] + s.subrange(
                j,
                s.len() as int,
            ));
        } else {
            assert(s.last().brightness.micros <= e.brightness.micros);
            assert(s.push(e) =~= s.subrange(0, j) + seq![e] + s.subrange(j, s.len() as int));
        }
    } else {
        assert(s[s.len() - 1].brightness.micros > e.brightness.micros);
        lemma_insert_by_brightness_at(e, s.drop_last(), j);
        assert(s.drop_last().subrange(0, j) =~= s.subrange(0, j));
        assert(s.drop_last().subrange(j, s.len() - 1) =~= s.subrange(j, s.len() - 1));
        assert((s.subrange(0, j) + seq![e] + s.subrange(j, s.len() - 1)).push(s.last()) =~= s
            .subrange(0, j) + seq![e] + s.subrange(j, s.len() as int));
    }
}

/// An ordered, immutable collection of stars.
#[derive(Clone, Debug)]
pub struct Sky {
    pub stars: Vec<StarEntry>,
}

impl Sky {
    pub fn from(stars: Vec<StarEntry>) -> (r: Sky)
        ensures
            r.stars@ == stars@,
    {
        Sky { stars }
    }

    pub fn len(&self) -> (r: usize)
        ensures
            r == self.stars@.len(),
    {
        self.stars.len()
    }

    #[must_use]
    pub fn is_empty(&self) -> (r: bool)
        ensures
            r == (self.stars@.len() == 0),
    {
        self.stars.is_empty()
    }

    /// The sky as seen from `pos`: every direction vector has `pos`
    /// subtracted; order, brightness and names are unchanged.
    pub fn seen_from(&self, pos: Vec3) -> (r: Sky)
        requires
            forall|i: int|
                0 <= i < self.stars@.len() ==> sub_fits((#[trigger] self.stars@[i]).pos@, pos@),
        ensures
            r.stars@.len() == self.stars@.len(),
            forall|i: int|
                0 <= i < self.stars@.len() ==> {
                    &&& (#[trigger] r.stars@[i]).pos@ == vec3i_sub(self.stars@[i].pos@, pos@)
                    &&& r.stars@[i].brightness == self.stars@[i].brightness
                    &&& r.stars@[i].name == self.stars@[i].name
                },
    {
        let n = self.stars.len();
        let mut out: Vec<StarEntry> = Vec::new();
        let mut i: usize = 0;
        while i < n
            invariant
                n == self.stars@.len(),
                i <= n,
                out@.len() == i as int,
                forall|k: int|
                    0 <= k < self.stars@.len() ==> sub_fits(
                        (#[trigger] self.stars@[k]).pos@,
                        pos@,
                    ),
                forall|k: int|
                    0 <= k < i as int ==> {
                        &&& (#[trigger] out@[k]).pos@ == vec3i_sub(self.stars@[k].pos@, pos@)
                        &&& out@[k].brightness == self.stars@[k].brightness
                        &&& out@[k].name == self.stars@[k].name
                    },
            decreases n - i,
        {
            let e = &self.stars[i];
            let moved = e.pos.sub(&pos);
            out.push(StarEntry { pos: moved, brightness: e.brightness, name: e.name.clone() });
            i = i + 1;
        }
        Sky { stars: out }
    }

    /// The sky under a new attitude: every direction vector rotated by
    /// `q`; order, brightness and names are unchanged.
    pub fn with_attitude(&self, q: &Quat) -> (r: Sky)
        requires
            q.within(QUAT_COMPONENT_MAX as int),
            forall|i: int|
                0 <= i < self.stars@.len() ==> (#[trigger] self.stars@[i]).pos.within(
                    ROTATE_COORD_MAX as int,
                ),
        ensures
            r.stars@.len() == self.stars@.len(),
            forall|i: int|
                0 <= i < self.stars@.len() ==> {
                    &&& (#[trigger] r.stars@[i]).pos@ == qrot_rounded(q@, self.stars@[i].pos@)
                    &&& r.stars@[i].brightness == self.stars@[i].brightness
                    &&& r.stars@[i].name == self.stars@[i].name
                },
    {
        let n = self.stars.len();
        let mut out: Vec<StarEntry> = Vec::new();
        let mut i: usize = 0;
        while i < n
            invariant
                n == self.stars@.len(),
                i <= n,
                out@.len() == i as int,
                q.within(QUAT_COMPONENT_MAX as int),
                forall|k: int|
                    0 <= k < self.stars@.len() ==> (#[trigger] self.stars@[k]).pos.within(
                        ROTATE_COORD_MAX as int,
                    ),
                forall|k: int|
                    0 <= k < i as int ==> {
                        &&& (#[trigger] out@[k]).pos@ == qrot_rounded(q@, self.stars@[k].pos@)
                        &&& out@[k].brightness == self.stars@[k].brightness
                        &&& out@[k].name == self.stars@[k].name
                    },
            decreases n - i,
        {
            let e = &self.stars[i];
            let turned = q.rotate(&e.pos);
            out.push(StarEntry { pos: turned, brightness: e.brightness, name: e.name.clone() });
            i = i + 1;
        }
        Sky { stars: out }
    }

    /// A sky from parsed catalog entries: stars at or below the
    /// brightness floor are discarded, the rest keep their order.
    pub fn from_entries(entries: Vec<StarEntry>) -> (r: Sky)
        ensures
            r.stars@ == visible_entries(entries@),
    {
        let ghost orig = entries@;
        let mut rest = entries;
        let mut out: Vec<StarEntry> = Vec::new();
        proof {
            reveal_with_fuel(Seq::<StarEntry>::filter, 2);
            assert(orig.take(0) =~= Seq::<StarEntry>::empty());
        }
        while rest.len() > 0
            invariant
                rest@.len() <= orig.len(),
                rest@ == orig.skip(orig.len() - rest@.len()),
                out@ == visible_entries(orig.take(orig.len() - rest@.len())),
            decreases rest@.len(),
        {
            let ghost i = orig.len() - rest@.len();
            let ghost before = rest@;
            let e = rest.remove(0);
            proof {
                assert(e == orig[i]);
                assert(before.remove(0) =~= orig.skip(i + 1));
                reveal_with_fuel(Seq::<StarEntry>::filter, 2);
                assert(orig.take(i + 1).drop_last() =~= orig.take(i));
                assert(orig.take(i + 1).last() == orig[i]);
            }
            if e.brightness.micros > BRIGHTNESS_FLOOR {
                out.push(e);
            }
        }
        proof {
            assert(orig.take(orig.len() as int) =~= orig);
        }
        Sky { stars: out }
    }

    /// The `nstars` brightest stars of this sky (all of them when fewer
    /// exist), sorted ascending by brightness.  The sort is stable and
    /// the result a function of the input alone, so the same sky and
    /// count always give the same selection.
    pub fn brightest(self, nstars: usize) -> (r: Sky)
        ensures
            ({
                let sorted = sort_by_brightness(self.stars@);
                let eff: int = if nstars <= self.stars@.len() {
                    nstars as int
                } else {
                    self.stars@.len() as int
                };
                r.stars@ == sorted.skip(self.stars@.len() - eff)
            }),
    {
        let ghost orig = self.stars@;
        let mut rest = self.stars;
        let mut sorted: Vec<StarEntry> = Vec::new();
        while rest.len() > 0
            invariant
                rest@.len() <= orig.len(),
                rest@ == orig.skip(orig.len() - rest@.len()),
                sorted@ == sort_by_brightness(orig.take(orig.len() - rest@.len())),
            decreases rest@.len(),
        {
            let ghost i = orig.len() - rest@.len();
            let ghost before = rest@;
            let e = rest.remove(0);
            proof {
                assert(e == orig[i]);
                assert(before.remove(0) =~= orig.skip(i + 1));
            }
            let mut j = sorted.len();
            while j > 0 && sorted[j - 1].brightness.micros > e.brightness.micros
                invariant
                    j <= sorted@.len(),
                    forall|k: int|
                        j <= k < sorted@.len() ==> (#[trigger] sorted@[k]).brightness.micros
                            > e.brightness.micros,
                decreases j,
            {
                j = j - 1;
            }
            let ghost unsorted = sorted@;
            proof {
                lemma_insert_by_brightness_at(e, sorted@, j as int);
            }
            sorted.insert(j, e);
            proof {
                assert(unsorted.insert(j as int, e) =~= unsorted.subrange(0, j as int) + seq![e]
                    + unsorted.subrange(j as int, unsorted.len() as int));
                assert(orig.take(i + 1).drop_last() =~= orig.take(i));
                assert(orig.take(i + 1).last() == orig[i]);
            }
        }
        proof {
            assert(orig.take(orig.len() as int) =~= orig);
            lemma_sort_by_brightness_len(orig);
        }
        let ghost full = sorted@;
        let eff: usize = if nstars <= sorted.len() {
            nstars
        } else {
            sorted.len()
        };
        while sorted.len() > eff
            invariant
                eff <= sorted@.len() <= full.len(),
                forall|m: int|
                    0 <= m < sorted@.len() ==> #[trigger] sorted@[m] == full[full.len()
                        - sorted@.len() + m],
            decreases sorted@.len(),
        {
            let ghost before = sorted@;
            sorted.remove(0);
            proof {
                before.remove_ensures(0);
            }
        }
        proof {
            assert(sorted@ =~= full.skip(full.len() - eff));
        }
        Sky { stars: sorted }
    }

    /// A sky of `n` stars scattered uniformly in a cube of side ten
    /// units centred on the observer, with uniform brightness below one
    /// and names drawn from the deterministic sequence of Greek-letter
    /// prefixes and Latin letters.
    pub fn random_with_stars(n: usize) -> (r: Sky)
        ensures
            r.stars@.len() == n as int,
            forall|k: int|
                0 <= k < n as int ==> {
                    &&& -5 * (MICRO as int) <= (#[trigger] r.stars@[k]).pos@.x < 5 * (MICRO as int)
                    &&& -5 * (MICRO as int) <= r.stars@[k].pos@.y < 5 * (MICRO as int)
                    &&& -5 * (MICRO as int) <= r.stars@[k].pos@.z < 5 * (MICRO as int)
                    &&& r.stars@[k].brightness.micros < MICRO
                    &&& r.stars@[k].name@ == star_name_spec(k)
                },
    {
        let prefixes = greek_names_map();
        let mut stars: Vec<StarEntry> = Vec::new();
        let mut i: usize = 0;
        while i < n
            invariant
                prefixes@.len() == 25,
                forall|j: int|
                    0 <= j < 25 ==> (#[trigger] prefixes@[j]).1@
                        == crate::catalog::greek_glyph_seq(j),
                i <= n,
                stars@.len() == i as int,
                forall|k: int|
                    0 <= k < i as int ==> {
                        &&& -5 * (MICRO as int) <= (#[trigger] stars@[k]).pos@.x < 5 * (MICRO as int)
                        &&& -5 * (MICRO as int) <= stars@[k].pos@.y < 5 * (MICRO as int)
                        &&& -5 * (MICRO as int) <= stars@[k].pos@.z < 5 * (MICRO as int)
                        &&& stars@[k].brightness.micros < MICRO
                        &&& stars@[k].name@ == star_name_spec(k)
                    },
            decreases n - i,
        {
            let x = cube_coordinate();
            let y = cube_coordinate();
            let z = cube_coordinate();
            let b = sample_below(MICRO as u64) as u32;
            let prefix = &prefixes[i % 25].1;
            let name = prefix.clone().concat(latin_letter(i / 25 % 26));
            proof {
                assert(name@ == star_name_spec(i as int));
            }
            stars.push(
                StarEntry { pos: Vec3 { x, y, z }, brightness: Brightness { micros: b }, name },
            );
            i = i + 1;
        }
        Sky { stars }
    }
}

/// The Latin letter at position `j` of the star-name suffix
/// sequence, as a character sequence.
pub open spec fn latin_letter_seq(j: int) -> Seq<char> {
    if j == 0 {
        "a"@
    } else if j == 1 {
        "b"@
    } else if j == 2 {
        "c"@
    } else if j == 3 {
        "d"@
    } else if j == 4 {
        "e"@
    } else if j == 5 {
        "f"@
    } else if j == 6 {
        "g"@
    } else if j == 7 {
        "h"@
    } else if j == 8 {
        "i"@
    } else if j == 9 {
        "j"@
    } else if j == 10 {
        "k"@
    } else if j == 11 {
        "l"@
    } else if j == 12 {
        "m"@
    } else if j == 13 {
        "n"@
    } else if j == 14 {
        "o"@
    } else if j == 15 {
        "p"@
    } else if j == 16 {
        "q"@
    } else if j == 17 {
        "r"@
    } else if j == 18 {
        "s"@
    } else if j == 19 {
        "t"@
    } else if j == 20 {
        "u"@
    } else if j == 21 {
        "v"@
    } else if j == 22 {
        "w"@
    } else if j == 23 {
        "x"@
    } else if j == 24 {
        "y"@
    } else {
        "z"@
    }
}

/// The name of the `i`-th star of a random sky: the deterministic
/// sequence of Greek-letter-or-blank prefixes crossed with Latin
/// letters, wrapping after all 650 pairs.
pub open spec fn star_name_spec(i: int) -> Seq<char>
    recommends
        i >= 0,
{
    crate::catalog::greek_glyph_seq(i % 25) + latin_letter_seq(i / 25 % 26)
}

/// One coordinate of a random star: uniform over the ten-unit cube
/// centred on the observer.
fn cube_coordinate() -> (r: i64)
    ensures
        -5 * (MICRO as int) <= r < 5 * (MICRO as int),
{
    let raw = sample_below(10 * MICRO as u64);
    (raw as i64) - 5 * MICRO
}

/// Relies on rand's `RngExt::random_range` over the thread-local
/// generator: a sample of `0..bound`, which is nonempty since
/// `bound > 0`.
#[verifier::external_body]
fn sample_below(bound: u64) -> (r: u64)
    requires
        bound > 0,
    ensures
        r < bound,
{
    rand::RngExt::random_range(&mut rand::rng(), 0..bound)
}

/// The Latin letter of a star-name suffix, by index.
fn latin_letter(j: usize) -> (r: &'static str)
    requires
        j < 26,
    ensures
        r@ == latin_letter_seq(j as int),
{
    match j {
        0 => "a",
        1 => "b",
        2 => "c",
        3 => "d",
        4 => "e",
        5 => "f",
        6 => "g",
        7 => "h",
        8 => "i",
        9 => "j",
        10 => "k",
        11 => "l",
        12 => "m",
        13 => "n",
        14 => "o",
        15 => "p",
        16 => "q",
        17 => "r",
        18 => "s",
        19 => "t",
        20 => "u",
        21 => "v",
        22 => "w",
        23 => "x",
        24 => "y",
        _ => "z",
    }
}

} // verus!
