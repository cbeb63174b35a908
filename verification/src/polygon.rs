//! The polygon's side count, its name, its edges and the pairs of circles
//! that must not overlap.

use vstd::prelude::*;
use crate::decimal::{decimal, decimal_string};

verus! {

/// The fewest sides a polygon can have.
pub const MIN_SIDES: usize = 3;

/// The message that rejects a side count below [`MIN_SIDES`].
pub open spec fn sides_error_text(sides: nat) -> Seq<char> {
    "Number of sides must be at least 3 (got "@ + decimal(sides)
        + "). A polygon needs at least 3 sides."@
}

/// Accepts a side count of at least [`MIN_SIDES`]; rejects any other with
/// the message that names it.
pub fn check_sides(sides: usize) -> (r: Result<(), String>)
    ensures
        r is Ok <==> sides >= MIN_SIDES,
        r matches Err(msg) ==> msg@ == sides_error_text(sides as nat),
{
    if sides < MIN_SIDES {
        let mut msg = String::from_str("Number of sides must be at least 3 (got ");
        let n = decimal_string(sides);
        msg.append(n.as_str());
        msg.append("). A polygon needs at least 3 sides.");
        return Err(msg);
    }
    Ok(())
}

/// The name of a polygon with `sides` sides, which also names its file.
pub open spec fn polygon_name_of(sides: nat) -> Seq<char> {
    if sides == 3 {
        "triangle"@
    } else if sides == 4 {
        "square"@
    } else if sides == 5 {
        "pentagon"@
    } else if sides == 6 {
        "hexagon"@
    } else if sides == 7 {
        "heptagon"@
    } else if sides == 8 {
        "octagon"@
    } else if sides == 9 {
        "nonagon"@
    } else if sides == 10 {
        "decagon"@
    } else {
        "polygon"@
    }
}

/// The name of a polygon with `sides` sides: `"triangle"` to `"decagon"`
/// for three to ten sides, `"polygon"` for any other count.
pub fn polygon_name(sides: usize) -> (name: &'static str)
    ensures
        name@ == polygon_name_of(sides as nat),
        (sides < 3 || sides > 10) ==> name@ == "polygon"@,
{
    match sides {
        3 => "triangle",
        4 => "square",
        5 => "pentagon",
        6 => "hexagon",
        7 => "heptagon",
        8 => "octagon",
        9 => "nonagon",
        10 => "decagon",
        _ => "polygon",
    }
}

/// The path of the image of the polygon called `name`.
pub open spec fn output_path_of(name: Seq<char>) -> Seq<char> {
    "output/"@ + name + ".svg"@
}

/// Names: three to ten sides have the names of their own, in order from
/// the triangle to the decagon, and every other side count, in particular
/// every count above ten, is called a polygon.
pub proof fn names_of_polygons(sides: nat)
    ensures
        sides > 10 ==> polygon_name_of(sides) == "polygon"@,
        sides < 3 ==> polygon_name_of(sides) == "polygon"@,
        polygon_name_of(3) == "triangle"@,
        polygon_name_of(4) == "square"@,
        polygon_name_of(5) == "pentagon"@,
        polygon_name_of(6) == "hexagon"@,
        polygon_name_of(7) == "heptagon"@,
        polygon_name_of(8) == "octagon"@,
        polygon_name_of(9) == "nonagon"@,
        polygon_name_of(10) == "decagon"@,
{
}

/// Every image lies in the directory `output` and is an `.svg` file named
/// after the polygon: the path is `output/`, then the name itself, then
/// `.svg`, and nothing else.
pub proof fn path_is_in_output(name: Seq<char>)
    ensures
        output_path_of(name).len() == name.len() + 11,
        output_path_of(name).subrange(0, 7) == "output/"@,
        output_path_of(name).subrange(7, 7 + name.len() as int) == name,
        output_path_of(name).subrange(7 + name.len() as int, 11 + name.len() as int) == ".svg"@,
{
    reveal_strlit("output/");
    reveal_strlit(".svg");
    let p = output_path_of(name);
    assert(p.subrange(0, 7) =~= "output/"@);
    assert(p.subrange(7, 7 + name.len() as int) =~= name);
    assert(p.subrange(7 + name.len() as int, 11 + name.len() as int) =~= ".svg"@);
}

/// The path of the image of the polygon called `name`: `output/<name>.svg`.
pub fn output_path(name: &str) -> (path: String)
    ensures
        path@ == output_path_of(name@),
        path@.len() == name@.len() + 11,
        path@.subrange(0, 7) == "output/"@,
        path@.subrange(7, 7 + name@.len() as int) == name@,
        path@.subrange(7 + name@.len() as int, 11 + name@.len() as int) == ".svg"@,
{
    proof {
        path_is_in_output(name@);
    }
    let mut path = String::from_str("output/");
    path.append(name);
    path.append(".svg");
    path
}

/// The vertex at which the edge that leaves vertex `i` of an `n`-gon ends.
pub open spec fn edge_end(i: int, n: int) -> int {
    (i + 1) % n
}

/// The edges of a polygon with `n` vertices, in order: edge `i` joins vertex
/// `i` to vertex `i + 1`, and the last one closes the polygon at vertex 0.
pub fn polygon_edges(n: usize) -> (edges: Vec<(usize, usize)>)
    ensures
        edges.len() == n,
        forall|i: int| 0 <= i < n ==> #[trigger] edges@[i] == (i as usize, edge_end(i, n as int) as usize),
{
    let mut edges: Vec<(usize, usize)> = Vec::new();
    let mut i: usize = 0;
    while i < n
        invariant
            i <= n,
            edges.len() == i,
            forall|k: int| 0 <= k < i ==> #[trigger] edges@[k] == (k as usize, edge_end(k, n as int) as usize),
        decreases n - i,
    {
        let next: usize = if i + 1 < n { i + 1 } else { 0 };
        proof {
            if i + 1 < n {
                vstd::arithmetic::div_mod::lemma_small_mod((i + 1) as nat, n as nat);
            } else {
                vstd::arithmetic::div_mod::lemma_mod_self_0(n as int);
            }
        }
        edges.push((i, next));
        i = i + 1;
    }
    edges
}

/// Going round an `n`-gon, every vertex ends exactly one edge: the edge from
/// vertex `(j + n - 1) % n` ends at `j`, and no other edge does.
pub proof fn edges_close_the_polygon(n: int, j: int)
    requires
        0 <= j < n,
    ensures
        0 <= (j + n - 1) % n < n,
        edge_end((j + n - 1) % n, n) == j,
        forall|i: int| 0 <= i < n && #[trigger] edge_end(i, n) == j ==> i == (j + n - 1) % n,
{
    let p = (j + n - 1) % n;
    if j == 0 {
        vstd::arithmetic::div_mod::lemma_small_mod((n - 1) as nat, n as nat);
        vstd::arithmetic::div_mod::lemma_mod_self_0(n);
    } else {
        vstd::arithmetic::div_mod::lemma_mod_add_multiples_vanish(j - 1, n);
        vstd::arithmetic::div_mod::lemma_small_mod((j - 1) as nat, n as nat);
        vstd::arithmetic::div_mod::lemma_small_mod(j as nat, n as nat);
    }
    assert forall|i: int| 0 <= i < n && #[trigger] edge_end(i, n) == j implies i == p by {
        if i + 1 < n {
            vstd::arithmetic::div_mod::lemma_small_mod((i + 1) as nat, n as nat);
        } else {
            vstd::arithmetic::div_mod::lemma_mod_self_0(n);
        }
    }
}

/// `p` comes before `q` in lexicographic order.
pub open spec fn pair_before(p: (usize, usize), q: (usize, usize)) -> bool {
    p.0 < q.0 || (p.0 == q.0 && p.1 < q.1)
}

/// Every pair of distinct circles among `n`, each once, as `(i, j)` with
/// `i < j`, in lexicographic order: the pairs whose overlap must be checked.
pub fn circle_pairs(n: usize) -> (pairs: Vec<(usize, usize)>)
    ensures
        forall|k: int| 0 <= k < pairs.len() ==> #[trigger] pairs@[k].0 < pairs@[k].1 < n,
        forall|i: usize, j: usize| i < j < n ==> #[trigger] pairs@.contains((i, j)),
        forall|k: int, l: int|
            0 <= k < l < pairs.len() ==> pair_before(#[trigger] pairs@[k], #[trigger] pairs@[l]),
{
    let mut pairs: Vec<(usize, usize)> = Vec::new();
    let mut i: usize = 0;
    while i < n
        invariant
            i <= n,
            forall|k: int| 0 <= k < pairs.len() ==> #[trigger] pairs@[k].0 < pairs@[k].1 < n,
            forall|k: int| 0 <= k < pairs.len() ==> #[trigger] pairs@[k].0 < i,
            forall|a: usize, b: usize| a < i && a < b < n ==> #[trigger] pairs@.contains((a, b)),
            forall|k: int, l: int|
                0 <= k < l < pairs.len() ==> pair_before(#[trigger] pairs@[k], #[trigger] pairs@[l]),
        decreases n - i,
    {
        let mut j: usize = i + 1;
        while j < n
            invariant
                i < n,
                i + 1 <= j <= n,
                forall|k: int| 0 <= k < pairs.len() ==> #[trigger] pairs@[k].0 < pairs@[k].1 < n,
                forall|k: int|
                    0 <= k < pairs.len() ==> (#[trigger] pairs@[k].0 < i || (pairs@[k].0 == i
                        && pairs@[k].1 < j)),
                forall|a: usize, b: usize|
                    (a < i && a < b < n) || (a == i && a < b < j) ==> #[trigger] pairs@.contains((a, b)),
                forall|k: int, l: int|
                    0 <= k < l < pairs.len() ==> pair_before(#[trigger] pairs@[k], #[trigger] pairs@[l]),
            decreases n - j,
        {
            let ghost before = pairs@;
            pairs.push((i, j));
            proof {
                assert(pairs@ == before.push((i, j)));
                assert forall|k: int| 0 <= k < pairs.len() implies #[trigger] pairs@[k].0 < pairs@[k].1 < n by {
                    if k < before.len() {
                        assert(pairs@[k] == before[k]);
                    }
                }
                assert forall|a: usize, b: usize|
                    (a < i && a < b < n) || (a == i && a < b < j + 1) implies pairs@.contains((a, b)) by {
                    if a == i && b == j {
                        assert(pairs@[before.len() as int] == (a, b));
                    } else {
                        assert(before.contains((a, b)));
                        let k = choose|k: int| 0 <= k < before.len() && before[k] == (a, b);
                        assert(pairs@[k] == (a, b));
                    }
                }
            }
            j = j + 1;
        }
        i = i + 1;
    }
    pairs
}

/// How many of `flags` are set.
pub open spec fn count_set(flags: Seq<bool>) -> nat
    decreases flags.len(),
{
    if flags.len() == 0 {
        0
    } else {
        count_set(flags.drop_last()) + if flags.last() { 1nat } else { 0nat }
    }
}

/// `count_set` counts the set flags: it is the length of the subsequence of
/// the flags that are set, so it is never more than the number of flags.
pub proof fn count_set_counts(flags: Seq<bool>)
    ensures
        count_set(flags) == flags.filter(|b: bool| b).len(),
        count_set(flags) <= flags.len(),
    decreases flags.len(),
{
    reveal_with_fuel(Seq::filter, 1);
    if flags.len() > 0 {
        count_set_counts(flags.drop_last());
    }
}

/// Counting the set flags of two sequences one after the other counts those
/// of each.
pub proof fn count_set_concat(a: Seq<bool>, b: Seq<bool>)
    ensures
        count_set(a + b) == count_set(a) + count_set(b),
    decreases b.len(),
{
    if b.len() > 0 {
        assert((a + b).drop_last() =~= a + b.drop_last());
        count_set_concat(a, b.drop_last());
    } else {
        assert(a + b =~= a);
    }
}

/// Starting the walk round the polygon at another edge does not change how
/// many edges a circle touches, so not whether it touches exactly two:
/// `rotated` lists the same flags as `touching`, starting at edge `k`.
pub proof fn rotation_keeps_touch_count(touching: Seq<bool>, rotated: Seq<bool>, k: int)
    requires
        0 <= k < touching.len(),
        rotated.len() == touching.len(),
        forall|i: int| 0 <= i < touching.len() ==> #[trigger] rotated[i] == touching[(i + k) % (touching.len() as int)],
    ensures
        count_set(rotated) == count_set(touching),
        (count_set(rotated) == 2) == (count_set(touching) == 2),
{
    let n = touching.len() as int;
    let tail = touching.subrange(k, n);
    let head = touching.subrange(0, k);
    assert forall|i: int| 0 <= i < n implies #[trigger] rotated[i] == (tail + head)[i] by {
        if i + k < n {
            vstd::arithmetic::div_mod::lemma_small_mod((i + k) as nat, n as nat);
        } else {
            vstd::arithmetic::div_mod::lemma_mod_add_multiples_vanish(i + k - n, n);
            vstd::arithmetic::div_mod::lemma_small_mod((i + k - n) as nat, n as nat);
        }
    }
    assert(rotated =~= tail + head);
    assert(touching =~= head + tail);
    count_set_concat(tail, head);
    count_set_concat(head, tail);
}

/// A circle sits where it should when it touches exactly two edges:
/// `touching[i]` says whether it touches edge `i`.
pub fn touches_exactly_two(touching: &Vec<bool>) -> (r: bool)
    ensures
        r == (count_set(touching@) == 2),
{
    let mut count: usize = 0;
    let mut i: usize = 0;
    while i < touching.len()
        invariant
            i <= touching.len(),
            count == count_set(touching@.take(i as int)),
            count <= i,
        decreases touching.len() - i,
    {
        proof {
            assert(touching@.take(i + 1).drop_last() =~= touching@.take(i as int));
        }
        if touching[i] {
            count = count + 1;
        }
        i = i + 1;
    }
    proof {
        assert(touching@.take(touching.len() as int) =~= touching@);
    }
    count == 2
}

} // verus!
