//! The shared random animation pool: four families of styles rotated through
//! a fixed number of slots, and the clock-driven slot choice.

use vstd::prelude::*;
use vstd::arithmetic::div_mod::{lemma_fundamental_div_mod, lemma_mod_multiples_basic};

verus! {

/// The Game of Life styles of the random pool.
pub const GAME_OF_LIFE_RANDOM_STYLES: [&'static str; 3] = [
    "game_of_life_gliders",
    "game_of_life_oscillators",
    "game_of_life_bloom",
];

/// The boids styles of the random pool.
pub const BOIDS_RANDOM_STYLES: [&'static str; 2] = ["boids_predator", "boids_schools"];

/// The Mandelbrot style.
pub const MANDELBROT_STYLE: &'static str = "mandelbrot";

/// The Kitty image frame sequence style.
pub const KITTY_FRAME_SEQUENCE_STYLE: &'static str = "magician";

/// The number of animation families that the random choice rotates through.
pub const RANDOM_ANIMATION_FAMILY_COUNT: usize = 4;

// ---------------------------------------------------------------------------
// greatest common divisor and least common multiple
// ---------------------------------------------------------------------------

/// Euclid's greatest common divisor.
pub open spec fn gcd_spec(a: nat, b: nat) -> nat
    decreases b,
{
    if b == 0 {
        a
    } else {
        gcd_spec(b, a % b)
    }
}

/// The least common multiple, with zero for a zero argument.
pub open spec fn lcm_spec(a: nat, b: nat) -> nat {
    if a == 0 || b == 0 {
        0
    } else {
        (a / gcd_spec(a, b)) * b
    }
}

proof fn lemma_divides_sum(g: nat, b: nat, q: nat, r: nat)
    requires
        g > 0,
        b % g == 0,
        r % g == 0,
    ensures
        (b * q + r) % g == 0,
{
    lemma_fundamental_div_mod(b as int, g as int);
    lemma_fundamental_div_mod(r as int, g as int);
    let kb = b / g;
    let kr = r / g;
    assert(b * q + r == g * (kb * q + kr)) by (nonlinear_arith)
        requires
            b == g * kb,
            r == g * kr,
    ;
    lemma_mod_multiples_basic((kb * q + kr) as int, g as int);
    assert((g * (kb * q + kr)) % g == 0) by (nonlinear_arith)
        requires
            ((kb * q + kr) * g) % g == 0,
    ;
}

/// The greatest common divisor divides both arguments and is positive when
/// one of them is.
pub proof fn lemma_gcd_divides(a: nat, b: nat)
    requires
        a > 0 || b > 0,
    ensures
        gcd_spec(a, b) > 0,
        a % gcd_spec(a, b) == 0,
        b % gcd_spec(a, b) == 0,
    decreases b,
{
    if b == 0 {
        assert(a % a == 0) by (nonlinear_arith)
            requires
                a > 0,
        ;
    } else {
        lemma_gcd_divides(b, a % b);
        let g = gcd_spec(a, b);
        lemma_fundamental_div_mod(a as int, b as int);
        lemma_divides_sum(g, b, a / b, a % b);
        assert(a == b * (a / b) + a % b);
    }
}

/// The least common multiple of two positive numbers is a positive common
/// multiple of both.
pub proof fn lemma_lcm_common_multiple(a: nat, b: nat)
    requires
        a > 0,
        b > 0,
    ensures
        lcm_spec(a, b) > 0,
        lcm_spec(a, b) % a == 0,
        lcm_spec(a, b) % b == 0,
{
    lemma_gcd_divides(a, b);
    let g = gcd_spec(a, b);
    lemma_fundamental_div_mod(a as int, g as int);
    lemma_fundamental_div_mod(b as int, g as int);
    let ka = a / g;
    let kb = b / g;
    assert(ka > 0) by (nonlinear_arith)
        requires
            a == g * ka,
            a > 0,
            g > 0,
    ;
    assert(ka * b > 0) by (nonlinear_arith)
        requires
            ka > 0,
            b > 0,
    ;
    lemma_mod_multiples_basic(ka as int, b as int);
    assert((ka * b) % b == 0) by (nonlinear_arith)
        requires
            (ka * b) % b == 0 || (ka * b) % b == (ka * b) % b,
            ((ka as int) * (b as int)) % (b as int) == 0,
    ;
    assert(ka * b == kb * a) by (nonlinear_arith)
        requires
            a == g * ka,
            b == g * kb,
    ;
    lemma_mod_multiples_basic(kb as int, a as int);
}

/// Euclid's algorithm.
fn gcd(left: usize, right: usize) -> (divisor: usize)
    ensures
        divisor == gcd_spec(left as nat, right as nat),
{
    let mut left = left;
    let mut right = right;
    let ghost target = gcd_spec(left as nat, right as nat);
    while right != 0
        invariant
            gcd_spec(left as nat, right as nat) == target,
        decreases right,
    {
        let remainder = left % right;
        left = right;
        right = remainder;
    }
    left
}

/// The least common multiple; `requires` leaves out the arguments whose
/// multiple overflows `usize`, on which the computation panics.
fn lcm(left: usize, right: usize) -> (multiple: usize)
    requires
        lcm_spec(left as nat, right as nat) <= usize::MAX,
    ensures
        multiple == lcm_spec(left as nat, right as nat),
{
    if left == 0 || right == 0 {
        return 0;
    }
    let divisor = gcd(left, right);
    proof {
        lemma_gcd_divides(left as nat, right as nat);
    }
    left / divisor * right
}

// ---------------------------------------------------------------------------
// the pool
// ---------------------------------------------------------------------------

/// The width of each family's sub-pool: the least common multiple of the
/// family sizes, so every member of a family gets the same share.
pub open spec fn random_subpool_width() -> nat {
    lcm_spec(GAME_OF_LIFE_RANDOM_STYLES@.len(), 2)
}

/// The number of slots of the random pool.
pub open spec fn random_slot_count() -> nat {
    RANDOM_ANIMATION_FAMILY_COUNT as nat * random_subpool_width()
}

proof fn lemma_pool_sizes()
    ensures
        random_subpool_width() == 6,
        random_slot_count() == 24,
{
    reveal_with_fuel(gcd_spec, 4);
    assert(gcd_spec(3, 2) == 1);
}

/// The style that occupies a slot of the random pool: slots rotate through
/// the four families, and each family's members rotate among the slots of
/// that family.
pub open spec fn random_style_for_slot(slot: nat) -> Seq<char> {
    let family = slot % RANDOM_ANIMATION_FAMILY_COUNT as nat;
    let family_index = (slot / RANDOM_ANIMATION_FAMILY_COUNT as nat) % random_subpool_width();
    if family == 0 {
        GAME_OF_LIFE_RANDOM_STYLES@[(family_index % 3) as int]@
    } else if family == 1 {
        BOIDS_RANDOM_STYLES@[(family_index % 2) as int]@
    } else if family == 2 {
        MANDELBROT_STYLE@
    } else {
        KITTY_FRAME_SEQUENCE_STYLE@
    }
}

/// The styles of the random pool, family by family.
pub open spec fn random_pool() -> Seq<Seq<char>> {
    seq![
        GAME_OF_LIFE_RANDOM_STYLES@[0]@,
        GAME_OF_LIFE_RANDOM_STYLES@[1]@,
        GAME_OF_LIFE_RANDOM_STYLES@[2]@,
        BOIDS_RANDOM_STYLES@[0]@,
        BOIDS_RANDOM_STYLES@[1]@,
        MANDELBROT_STYLE@,
        KITTY_FRAME_SEQUENCE_STYLE@,
    ]
}

/// The number of slots that `resolve_random_animation_style` chooses from.
pub fn random_animation_slot_count() -> (count: usize)
    ensures
        count == random_slot_count(),
        count == 24,
{
    proof {
        lemma_pool_sizes();
    }
    let boids_len = if BOIDS_RANDOM_STYLES.len() > 1 {
        BOIDS_RANDOM_STYLES.len()
    } else {
        1
    };
    RANDOM_ANIMATION_FAMILY_COUNT * lcm(GAME_OF_LIFE_RANDOM_STYLES.len(), boids_len)
}

/// Every style that the random pool can choose, family by family.
pub fn random_animation_styles() -> (styles: Vec<&'static str>)
    ensures
        styles@.map_values(|s: &'static str| s@) == random_pool(),
{
    let mut styles: Vec<&'static str> = Vec::new();
    let mut i: usize = 0;
    while i < GAME_OF_LIFE_RANDOM_STYLES.len()
        invariant
            i <= 3,
            styles@.len() == i,
            forall|k: int| 0 <= k < i ==> styles@[k] == GAME_OF_LIFE_RANDOM_STYLES@[k],
        decreases 3 - i,
    {
        styles.push(GAME_OF_LIFE_RANDOM_STYLES[i]);
        i = i + 1;
    }
    let mut j: usize = 0;
    while j < BOIDS_RANDOM_STYLES.len()
        invariant
            j <= 2,
            styles@.len() == 3 + j,
            forall|k: int| 0 <= k < 3 ==> styles@[k] == GAME_OF_LIFE_RANDOM_STYLES@[k],
            forall|k: int| 0 <= k < j ==> styles@[3 + k] == BOIDS_RANDOM_STYLES@[k],
        decreases 2 - j,
    {
        styles.push(BOIDS_RANDOM_STYLES[j]);
        j = j + 1;
    }
    styles.push(MANDELBROT_STYLE);
    styles.push(KITTY_FRAME_SEQUENCE_STYLE);
    assert(styles@.map_values(|s: &'static str| s@) =~= random_pool());
    styles
}

/// The fractional nanoseconds of the current wall-clock time.
///
/// Calls `SystemTime::now`, its `duration_since(UNIX_EPOCH)` (zero when the
/// clock is before the epoch) and `Duration::subsec_nanos`. Only the
/// documented bound of a sub-second nanosecond count is claimed; the value
/// itself depends on the clock.
#[verifier::external_body]
pub(crate) fn clock_subsec_nanos() -> (nanos: u32)
    ensures
        nanos < 1_000_000_000,
{
    std::time::SystemTime::now().duration_since(std::time::UNIX_EPOCH).unwrap_or_default().subsec_nanos()
}

/// The index that a sub-second nanosecond count gives below `max_len`: the
/// count modulo `max_len` (modulo one when `max_len` is zero).
pub open spec fn nanos_index(nanos: nat, max_len: usize) -> nat {
    nanos % (if max_len > 1 { max_len as nat } else { 1 })
}

/// The index that a sub-second nanosecond count gives below `max_len`.
pub fn index_from_nanos(nanos: u32, max_len: usize) -> (index: usize)
    ensures
        index as nat == nanos_index(nanos as nat, max_len),
        index < (if max_len > 0 { max_len } else { 1 }),
{
    let bound = if max_len > 1 { max_len } else { 1 };
    (nanos as usize) % bound
}

/// A clock-driven index below `max_len` (below one when `max_len` is zero):
/// the clock's sub-second nanoseconds, as `index_from_nanos` reduces them.
pub fn system_random_index(max_len: usize) -> (index: usize)
    ensures
        index < (if max_len > 0 { max_len } else { 1 }),
        exists|nanos: nat| nanos < 1_000_000_000 && index == #[trigger] nanos_index(nanos, max_len),
{
    index_from_nanos(clock_subsec_nanos(), max_len)
}

/// The style of the random pool for `random_index`, taken modulo the slot
/// count; without an index, a slot chosen by the clock.
pub fn resolve_random_animation_style(random_index: Option<usize>) -> (style: &'static str)
    ensures
        random_index matches Some(index) ==> style@ == random_style_for_slot(
            index as nat % random_slot_count(),
        ),
        exists|slot: nat| slot < random_slot_count() && style@ == random_style_for_slot(slot),
{
    proof {
        lemma_pool_sizes();
    }
    let boids_len = if BOIDS_RANDOM_STYLES.len() > 1 {
        BOIDS_RANDOM_STYLES.len()
    } else {
        1
    };
    let subpool_width = lcm(GAME_OF_LIFE_RANDOM_STYLES.len(), boids_len);
    let slot_count = RANDOM_ANIMATION_FAMILY_COUNT * subpool_width;
    let raw = match random_index {
        Some(index) => index,
        None => system_random_index(slot_count),
    };
    let selected = raw % slot_count;
    let family = selected % RANDOM_ANIMATION_FAMILY_COUNT;
    let family_index = (selected / RANDOM_ANIMATION_FAMILY_COUNT) % subpool_width;
    let style = if family == 0 {
        GAME_OF_LIFE_RANDOM_STYLES[family_index % GAME_OF_LIFE_RANDOM_STYLES.len()]
    } else if family == 1 {
        BOIDS_RANDOM_STYLES[family_index % BOIDS_RANDOM_STYLES.len()]
    } else if family == 2 {
        MANDELBROT_STYLE
    } else {
        KITTY_FRAME_SEQUENCE_STYLE
    };
    assert(style@ == random_style_for_slot(selected as nat));
    style
}

// ---------------------------------------------------------------------------
// laws of the pool
// ---------------------------------------------------------------------------

/// Slots rotate through the families: a slot's style belongs to the Game of
/// Life, boids, Mandelbrot or Kitty family as the slot number is 0, 1, 2 or 3
/// modulo four, so each family holds a quarter of the slots.
pub proof fn lemma_random_slot_family(slot: nat)
    ensures
        slot % 4 == 0 ==> exists|k: int|
            0 <= k < 3 && random_style_for_slot(slot) == #[trigger] GAME_OF_LIFE_RANDOM_STYLES@[k]@,
        slot % 4 == 1 ==> exists|k: int|
            0 <= k < 2 && random_style_for_slot(slot) == #[trigger] BOIDS_RANDOM_STYLES@[k]@,
        slot % 4 == 2 ==> random_style_for_slot(slot) == MANDELBROT_STYLE@,
        slot % 4 == 3 ==> random_style_for_slot(slot) == KITTY_FRAME_SEQUENCE_STYLE@,
{
    lemma_pool_sizes();
    let family_index = (slot / 4) % 6;
    if slot % 4 == 0 {
        assert(random_style_for_slot(slot) == GAME_OF_LIFE_RANDOM_STYLES@[(family_index % 3) as int]@);
    } else if slot % 4 == 1 {
        assert(random_style_for_slot(slot) == BOIDS_RANDOM_STYLES@[(family_index % 2) as int]@);
    }
}

/// The choice repeats with the slot count: indices that differ by a whole
/// number of pool lengths choose the same style.
pub proof fn lemma_random_choice_periodic(index: nat, rounds: nat)
    ensures
        random_style_for_slot((index + rounds * random_slot_count()) % random_slot_count())
            == random_style_for_slot(index % random_slot_count()),
{
    lemma_pool_sizes();
    vstd::arithmetic::div_mod::lemma_mod_multiples_vanish(rounds as int, index as int, 24);
    assert((index + rounds * 24) == (24 * rounds + index)) by (nonlinear_arith);
}

/// Every style of the pool occupies some slot, and every slot holds a style
/// of the pool.
pub proof fn lemma_random_pool_covered()
    ensures
        forall|k: int| 0 <= k < random_pool().len() ==> exists|slot: nat|
            slot < random_slot_count() && #[trigger] random_pool()[k] == random_style_for_slot(slot),
        forall|slot: nat| slot < random_slot_count() ==> random_pool().contains(
            #[trigger] random_style_for_slot(slot),
        ),
{
    lemma_pool_sizes();
    assert(random_pool()[0] == random_style_for_slot(0));
    assert(random_pool()[1] == random_style_for_slot(4));
    assert(random_pool()[2] == random_style_for_slot(8));
    assert(random_pool()[3] == random_style_for_slot(1));
    assert(random_pool()[4] == random_style_for_slot(5));
    assert(random_pool()[5] == random_style_for_slot(2));
    assert(random_pool()[6] == random_style_for_slot(3));
    assert forall|slot: nat| slot < random_slot_count() implies random_pool().contains(
        #[trigger] random_style_for_slot(slot),
    ) by {
        let family_index = (slot / 4) % 6;
        if slot % 4 == 0 {
            let k = family_index % 3;
            assert(random_pool()[k as int] == random_style_for_slot(slot));
        } else if slot % 4 == 1 {
            let k = family_index % 2;
            assert(random_pool()[3 + k as int] == random_style_for_slot(slot));
        } else if slot % 4 == 2 {
            assert(random_pool()[5] == random_style_for_slot(slot));
        } else {
            assert(random_pool()[6] == random_style_for_slot(slot));
        }
    }
}

} // verus!
