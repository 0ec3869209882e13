//! Paths: joining, and the order in which trees are walked.

use crate::table;
use crate::table::Rank;
use crate::text;
use vstd::prelude::*;
use vstd::relations;

verus! {

/// `name` below `base`. An absolute name stands for itself.
pub open spec fn joined(base: Seq<char>, name: Seq<char>) -> Seq<char> {
    let front = text::utf8(base);
    let back = text::utf8(name);
    if back.len() > 0 && back[0] == 47 {
        name
    } else if front.len() == 0 || front.last() == 47 {
        base + name
    } else {
        base + "/"@ + name
    }
}

/// Puts `name` below `base`.
pub fn join(base: &str, name: &str) -> (r: String)
    ensures
        r@ == joined(base@, name@),
{
    let front = base.as_bytes();
    let back = name.as_bytes();
    if back.len() > 0 && back[0] == 47 {
        name.to_owned()
    } else if front.len() == 0 || front[front.len() - 1] == 47 {
        text::join2(base, name)
    } else {
        text::join3(base, "/", name)
    }
}

/// A component that counts: not empty, and no `.` but at the beginning.
pub open spec fn counts(piece: Seq<u8>, first: bool) -> bool {
    piece.len() > 0 && (first || piece != seq![46u8])
}

/// The components of a path, from the pieces between its separators.
pub open spec fn counted(pieces: Seq<Seq<u8>>) -> Seq<Seq<u8>>
    decreases pieces.len(),
{
    if pieces.len() == 0 {
        Seq::empty()
    } else if counts(pieces.last(), pieces.len() == 1) {
        counted(pieces.drop_last()).push(pieces.last())
    } else {
        counted(pieces.drop_last())
    }
}

/// The components of a path.
pub open spec fn components(path: Seq<u8>) -> Seq<Seq<u8>> {
    counted(text::split(path, 47))
}

/// Components with a separator before each.
pub open spec fn spelled(parts: Seq<Seq<u8>>) -> Seq<u8>
    decreases parts.len(),
{
    if parts.len() == 0 {
        Seq::empty()
    } else {
        spelled(parts.drop_last()) + seq![47u8] + parts.last()
    }
}

/// A spelling that two paths share if and only if they have the same components and both
/// start at the root or neither does.
pub open spec fn spelling(path: Seq<u8>) -> Seq<u8> {
    (if path.len() > 0 && path[0] == 47 {
        seq![47u8]
    } else {
        Seq::empty()
    }) + spelled(components(path))
}

/// The last component of a path, if it names something.
pub open spec fn last_name(path: Seq<u8>) -> Option<Seq<u8>> {
    let parts = components(path);
    if parts.len() == 0 || parts.last() == seq![46u8] || parts.last() == seq![46u8, 46u8] {
        None
    } else {
        Some(parts.last())
    }
}

/// Splits a path into its components.
pub fn component_list(path: &[u8]) -> (r: Vec<Vec<u8>>)
    ensures
        strings(r@) == components(path@),
{
    let pieces = text::pieces(path, 47);
    let ghost all = text::split(path@, 47);
    let mut parts: Vec<Vec<u8>> = Vec::new();
    let mut i: usize = 0;
    proof {
        assert(all.take(0) =~= Seq::<Seq<u8>>::empty());
        assert(strings(parts@) =~= Seq::<Seq<u8>>::empty());
    }
    while i < pieces.len()
        invariant
            i <= pieces@.len(),
            text::slices(pieces@) == all,
            all == text::split(path@, 47),
            strings(parts@) == counted(all.take(i as int)),
        decreases pieces@.len() - i,
    {
        let piece = pieces[i];
        proof {
            assert(text::slices(pieces@)[i as int] == piece@);
            assert(all.take(i + 1).drop_last() =~= all.take(i as int));
            assert(all.take(i + 1).last() == piece@);
            if piece@.len() == 1 && piece@[0] == 46 {
                assert(piece@ =~= seq![46u8]);
            }
        }
        if piece.len() > 0 && (i == 0 || !(piece.len() == 1 && piece[0] == 46)) {
            let ghost before = strings(parts@);
            parts.push(text::copy_bytes(piece));
            proof {
                assert(strings(parts@) =~= before.push(piece@));
            }
        }
        i += 1;
    }
    proof {
        assert(all.take(all.len() as int) =~= all);
    }
    parts
}

/// Spells the first `count` components.
pub fn spell(absolute: bool, parts: &Vec<Vec<u8>>, count: usize) -> (r: Vec<u8>)
    requires
        count <= parts@.len(),
    ensures
        r@ == (if absolute {
            seq![47u8]
        } else {
            Seq::empty()
        }) + spelled(strings(parts@).take(count as int)),
{
    let ghost all = strings(parts@);
    let ghost head = if absolute {
        seq![47u8]
    } else {
        Seq::empty()
    };
    let mut path: Vec<u8> = Vec::new();
    if absolute {
        path.push(47);
    }
    let mut i: usize = 0;
    proof {
        assert(all.take(0) =~= Seq::<Seq<u8>>::empty());
        assert(path@ =~= head + spelled(all.take(0)));
    }
    while i < count
        invariant
            i <= count <= parts@.len(),
            all == strings(parts@),
            path@ == head + spelled(all.take(i as int)),
        decreases count - i,
    {
        let ghost before = path@;
        path.push(47);
        path.extend_from_slice(parts[i].as_slice());
        proof {
            assert(all.take(i + 1).drop_last() =~= all.take(i as int));
            assert(all.take(i + 1).last() == parts@[i as int]@);
            assert(path@ =~= head + spelled(all.take(i + 1)));
        }
        i += 1;
    }
    path
}

/// The last component, if it names something.
pub fn name_of(parts: &Vec<Vec<u8>>) -> (r: Option<&Vec<u8>>)
    ensures
        match r {
            Some(name) => parts@.len() > 0 && name@ == parts@.last()@ && name@ != seq![46u8]
                && name@ != seq![46u8, 46u8],
            None => parts@.len() == 0 || parts@.last()@ == seq![46u8] || parts@.last()@ == seq![
                46u8,
                46u8,
            ],
        },
{
    if parts.len() == 0 {
        return None;
    }
    let name = &parts[parts.len() - 1];
    proof {
        if name@.len() == 1 && name@[0] == 46 {
            assert(name@ =~= seq![46u8]);
        }
        if name@.len() == 2 && name@[0] == 46 && name@[1] == 46 {
            assert(name@ =~= seq![46u8, 46u8]);
        }
    }
    if (name.len() == 1 && name[0] == 46) || (name.len() == 2 && name[0] == 46 && name[1] == 46) {
        None
    } else {
        Some(name)
    }
}

/// The weight of a byte in the order of paths: the separator is lighter than all others.
pub open spec fn weight(byte: u8) -> u8 {
    if byte == 47 {
        0
    } else if byte < 47 {
        (byte + 1) as u8
    } else {
        byte
    }
}

/// The weights of a path.
pub open spec fn weights(path: Seq<u8>) -> Seq<u8> {
    Seq::new(path.len(), |i: int| weight(path[i]))
}

/// The order of paths, component by component.
pub open spec fn comes_before(left: Seq<u8>, right: Seq<u8>) -> bool {
    table::precedes(weights(left), weights(right))
}

fn weigh(byte: u8) -> (r: u8)
    ensures
        r == weight(byte),
{
    if byte == 47 {
        0
    } else if byte < 47 {
        byte + 1
    } else {
        byte
    }
}

/// Paths of equal weights are equal.
pub proof fn lemma_weights_injective(left: Seq<u8>, right: Seq<u8>)
    ensures
        weights(left) == weights(right) <==> left == right,
{
    if weights(left) == weights(right) {
        assert(weights(left).len() == left.len());
        assert(weights(right).len() == right.len());
        assert forall|i: int| 0 <= i < left.len() implies left[i] == right[i] by {
            assert(weights(left)[i] == weights(right)[i]);
        }
        assert(left =~= right);
    }
}

/// Ranks two paths component by component.
pub fn rank_paths(left: &[u8], right: &[u8]) -> (r: Rank)
    ensures
        r is Before <==> comes_before(left@, right@),
        r is Same <==> left@ == right@,
        r is After <==> comes_before(right@, left@),
{
    let ghost l = weights(left@);
    let ghost r = weights(right@);
    proof {
        lemma_weights_injective(left@, right@);
    }
    let mut i: usize = 0;
    while i < left.len() && i < right.len()
        invariant
            i <= left@.len(),
            i <= right@.len(),
            l == weights(left@),
            r == weights(right@),
            l == r <==> left@ == right@,
            forall|j: int| 0 <= j < i ==> #[trigger] l[j] == r[j],
        decreases left@.len() - i,
    {
        let own: u8 = weigh(left[i]);
        let other: u8 = weigh(right[i]);
        proof {
            assert(l[i as int] == own);
            assert(r[i as int] == other);
        }
        if own < other {
            proof {
                assert(table::smaller_at(l, r, i as int));
                table::lemma_precedes_asymmetric(l, r);
            }
            return Rank::Before;
        }
        if other < own {
            proof {
                assert(table::smaller_at(r, l, i as int));
                table::lemma_precedes_asymmetric(r, l);
            }
            return Rank::After;
        }
        i += 1;
    }
    if left.len() < right.len() {
        proof {
            assert(table::smaller_at(l, r, i as int));
            table::lemma_precedes_asymmetric(l, r);
        }
        Rank::Before
    } else if right.len() < left.len() {
        proof {
            assert(table::smaller_at(r, l, i as int));
            table::lemma_precedes_asymmetric(r, l);
        }
        Rank::After
    } else {
        proof {
            assert(l =~= r);
            if table::precedes(l, r) {
                table::lemma_precedes_asymmetric(l, r);
            }
        }
        Rank::Same
    }
}

/// Not behind, in the order of paths.
pub open spec fn not_behind() -> spec_fn(Seq<u8>, Seq<u8>) -> bool {
    |left: Seq<u8>, right: Seq<u8>| left == right || comes_before(left, right)
}

/// The byte strings of a row of vectors.
pub open spec fn strings(paths: Seq<Vec<u8>>) -> Seq<Seq<u8>> {
    Seq::new(paths.len(), |i: int| paths[i]@)
}

/// The order of paths is total.
pub proof fn lemma_path_order()
    ensures
        relations::total_ordering(not_behind()),
{
    let order = not_behind();
    assert forall|x: Seq<u8>, y: Seq<u8>| #[trigger] order(x, y) && #[trigger] order(y, x) implies x
        == y by {
        if x != y {
            table::lemma_precedes_asymmetric(weights(x), weights(y));
        }
    }
    assert forall|x: Seq<u8>, y: Seq<u8>, z: Seq<u8>| #[trigger] order(x, y) && #[trigger] order(
        y,
        z,
    ) implies order(x, z) by {
        if x != y && y != z {
            table::lemma_precedes_transitive(weights(x), weights(y), weights(z));
        }
    }
    assert forall|x: Seq<u8>, y: Seq<u8>| #[trigger] order(x, y) || #[trigger] order(y, x) by {
        lemma_weights_injective(x, y);
        if x != y {
            table::lemma_total(weights(x), weights(y), 0);
        }
    }
}

/// The paths in their order.
pub open spec fn in_order(paths: Seq<Seq<u8>>) -> bool {
    relations::sorted_by(paths, not_behind())
}

/// All of `left` come no later than all of `right`.
pub open spec fn all_before(left: Seq<Seq<u8>>, right: Seq<Seq<u8>>) -> bool {
    forall|i: int, j: int|
        0 <= i < left.len() && 0 <= j < right.len() ==> not_behind()(
            #[trigger] left[i],
            #[trigger] right[j],
        )
}

/// Puts a path in front of later ones.
fn merge(left: Vec<Vec<u8>>, right: Vec<Vec<u8>>) -> (r: Vec<Vec<u8>>)
    requires
        in_order(strings(left@)),
        in_order(strings(right@)),
    ensures
        in_order(strings(r@)),
        strings(r@).to_multiset() == strings(left@).to_multiset().add(
            strings(right@).to_multiset(),
        ),
{
    let ghost total = strings(left@).to_multiset().add(strings(right@).to_multiset());
    let mut left = left;
    let mut right = right;
    let mut behind: Vec<Vec<u8>> = Vec::new();
    let ghost mut tail: Seq<Seq<u8>> = Seq::empty();
    proof {
        broadcast use vstd::seq_lib::group_to_multiset_ensures;

        lemma_path_order();
        assert(total =~= strings(left@).to_multiset().add(strings(right@).to_multiset()).add(
            tail.to_multiset(),
        ));
        assert(strings(behind@).reverse() =~= tail);
    }
    while left.len() > 0 || right.len() > 0
        invariant
            relations::total_ordering(not_behind()),
            in_order(strings(left@)),
            in_order(strings(right@)),
            in_order(tail),
            strings(behind@).reverse() == tail,
            all_before(strings(left@), tail),
            all_before(strings(right@), tail),
            total == strings(left@).to_multiset().add(strings(right@).to_multiset()).add(
                tail.to_multiset(),
            ),
        decreases left@.len() + right@.len(),
    {
        let ghost l = strings(left@);
        let ghost r = strings(right@);
        let from_left = if right.len() == 0 {
            true
        } else if left.len() == 0 {
            false
        } else {
            match rank_paths(left[left.len() - 1].as_slice(), right[right.len() - 1].as_slice()) {
                Rank::After => true,
                _ => false,
            }
        };
        let ghost before = strings(behind@);
        let ghost later = tail;
        if from_left {
            let item = left.pop().unwrap();
            let ghost value = item@;
            behind.push(item);
            proof {
                assert(strings(left@) =~= l.drop_last());
                assert(value == l.last());
                lemma_taken(l, r, later, value);
                tail = seq![value] + later;
                assert(strings(behind@) =~= before.push(value));
                assert(strings(behind@).reverse() =~= tail);
            }
        } else {
            let item = right.pop().unwrap();
            let ghost value = item@;
            behind.push(item);
            proof {
                assert(strings(right@) =~= r.drop_last());
                assert(value == r.last());
                if l.len() > 0 {
                    assert(not_behind()(l.last(), value));
                }
                lemma_taken(r, l, later, value);
                tail = seq![value] + later;
                assert(strings(behind@) =~= before.push(value));
                assert(strings(behind@).reverse() =~= tail);
                let one = l.to_multiset();
                assert(total =~= r.to_multiset().add(one).add(later.to_multiset()));
                assert(one.add(r.drop_last().to_multiset()).add(tail.to_multiset())
                    =~= r.drop_last().to_multiset().add(one).add(tail.to_multiset()));
            }
        }
    }
    proof {
        broadcast use vstd::seq_lib::group_to_multiset_ensures;

        assert(strings(left@) =~= Seq::<Seq<u8>>::empty());
        assert(strings(right@) =~= Seq::<Seq<u8>>::empty());
        assert(total =~= tail.to_multiset());
    }
    turn_around(behind)
}

/// Moving the last of `from` in front of `later` keeps the order and loses nothing.
proof fn lemma_taken(
    from: Seq<Seq<u8>>,
    other: Seq<Seq<u8>>,
    later: Seq<Seq<u8>>,
    value: Seq<u8>,
)
    requires
        relations::total_ordering(not_behind()),
        in_order(from),
        in_order(other),
        in_order(later),
        from.len() > 0,
        value == from.last(),
        other.len() > 0 ==> not_behind()(other.last(), value),
        all_before(from, later),
        all_before(other, later),
    ensures
        in_order(from.drop_last()),
        in_order(seq![value] + later),
        all_before(from.drop_last(), seq![value] + later),
        all_before(other, seq![value] + later),
        from.drop_last().to_multiset().add(other.to_multiset()).add(
            (seq![value] + later).to_multiset(),
        ) == from.to_multiset().add(other.to_multiset()).add(later.to_multiset()),
{
    broadcast use vstd::seq_lib::group_to_multiset_ensures;

    let order = not_behind();
    let rest = from.drop_last();
    let grown = seq![value] + later;
    assert forall|i: int, j: int| 0 <= i < j < rest.len() implies #[trigger] order(
        rest[i],
        rest[j],
    ) by {
        assert(order(from[i], from[j]));
    }
    assert forall|i: int, j: int| 0 <= i < j < grown.len() implies #[trigger] order(
        grown[i],
        grown[j],
    ) by {
        if i == 0 {
            assert(order(from[from.len() - 1], later[j - 1]));
        } else {
            assert(order(later[i - 1], later[j - 1]));
        }
    }
    assert forall|i: int, j: int| 0 <= i < rest.len() && 0 <= j < grown.len() implies order(
        #[trigger] rest[i],
        #[trigger] grown[j],
    ) by {
        if j == 0 {
            assert(order(from[i], from[from.len() - 1]));
        } else {
            assert(order(from[i], later[j - 1]));
        }
    }
    assert forall|i: int, j: int| 0 <= i < other.len() && 0 <= j < grown.len() implies order(
        #[trigger] other[i],
        #[trigger] grown[j],
    ) by {
        if j == 0 {
            if i < other.len() - 1 {
                assert(order(other[i], other[other.len() - 1]));
            }
            assert(order(other[other.len() - 1], value));
        } else {
            assert(order(other[i], later[j - 1]));
        }
    }
    assert(from =~= rest.push(value));
    vstd::seq_lib::lemma_multiset_commutative(seq![value], later);
    assert(seq![value].to_multiset() =~= vstd::multiset::Multiset::singleton(value)) by {
        assert(seq![value] =~= Seq::<Seq<u8>>::empty().push(value));
    }
    assert(rest.to_multiset().add(other.to_multiset()).add(grown.to_multiset())
        =~= from.to_multiset().add(other.to_multiset()).add(later.to_multiset()));
}

fn turn_around(items: Vec<Vec<u8>>) -> (r: Vec<Vec<u8>>)
    ensures
        strings(r@) == strings(items@).reverse(),
{
    let ghost all = strings(items@);
    let mut items = items;
    let mut turned: Vec<Vec<u8>> = Vec::new();
    while items.len() > 0
        invariant
            strings(items@) == all.take(items@.len() as int),
            items@.len() <= all.len(),
            strings(turned@) == all.skip(items@.len() as int).reverse(),
        decreases items@.len(),
    {
        let ghost n = items@.len();
        let ghost whole = items@;
        let ghost before = strings(turned@);
        let item = items.pop().unwrap();
        proof {
            assert(item == whole[n - 1]);
            assert(strings(whole)[n - 1] == all.take(n as int)[n - 1]);
            assert(item@ == all[n - 1]);
            assert(strings(items@) =~= all.take(n - 1));
        }
        turned.push(item);
        proof {
            assert(strings(turned@) =~= before.push(all[n - 1]));
            assert(all.skip(n - 1).reverse() =~= all.skip(n as int).reverse().push(all[n - 1]));
        }
    }
    proof {
        assert(all.skip(0) =~= all);
    }
    turned
}

/// Sorts paths component by component.
pub fn sort_paths(paths: Vec<Vec<u8>>) -> (r: Vec<Vec<u8>>)
    ensures
        in_order(strings(r@)),
        strings(r@).to_multiset() == strings(paths@).to_multiset(),
    decreases paths@.len(),
{
    if paths.len() <= 1 {
        return paths;
    }
    let ghost all = strings(paths@);
    let middle: usize = paths.len() / 2;
    let mut front = paths;
    let back = front.split_off(middle);
    proof {
        assert(strings(front@) =~= all.take(middle as int));
        assert(strings(back@) =~= all.skip(middle as int));
        assert(all =~= all.take(middle as int) + all.skip(middle as int));
        vstd::seq_lib::lemma_multiset_commutative(
            all.take(middle as int),
            all.skip(middle as int),
        );
    }
    let front = sort_paths(front);
    let back = sort_paths(back);
    merge(front, back)
}

/// The order of a set of paths does not depend on the order in which they were found.
pub proof fn law_path_order_is_canonical(left: Seq<Seq<u8>>, right: Seq<Seq<u8>>)
    requires
        left.to_multiset() == right.to_multiset(),
        in_order(left),
        in_order(right),
    ensures
        left == right,
{
    lemma_path_order();
    vstd::seq_lib::lemma_sorted_unique(left, right, not_behind());
}

/// A name below a directory is the last component of its path, behind those of the directory.
pub proof fn law_names_are_last_components(directory: Seq<u8>, name: Seq<u8>)
    requires
        directory.len() == 0 || directory.last() == 47,
        name.len() > 0,
        name != seq![46u8],
        !text::has_byte(name, 47),
    ensures
        components(directory + name) == components(directory).push(name),
{
    if directory.len() == 0 {
        assert(directory + name =~= name);
        text::lemma_split_behind(Seq::empty(), name, 47);
        text::lemma_find(directory, 47);
        reveal_with_fuel(counted, 2);
        let own = text::split(name, 47);
        assert(own.drop_last() =~= Seq::<Seq<u8>>::empty());
        let none = text::split(directory, 47);
        assert(none =~= seq![directory]);
        assert(none.drop_last() =~= Seq::<Seq<u8>>::empty());
        assert(counted(none) =~= Seq::<Seq<u8>>::empty());
        assert(components(directory + name) =~= components(directory).push(name));
    } else {
        let front = directory.drop_last();
        assert(directory + name =~= front + seq![47u8] + name);
        text::lemma_split_behind(front, name, 47);
        text::lemma_split_behind(front, Seq::empty(), 47);
        assert(directory =~= front + seq![47u8] + Seq::<u8>::empty());
        let pieces = text::split(front, 47);
        assert(pieces.push(name).drop_last() =~= pieces);
        assert(pieces.push(Seq::<u8>::empty()).drop_last() =~= pieces);
    }
}

/// An absolute name stands for itself; any other is put below its base, with one separator between
/// them.
pub proof fn law_joined_names_lie_below_their_base(base: Seq<char>, name: Seq<char>)
    ensures
        text::utf8(name).len() > 0 && text::utf8(name)[0] == 47 ==> joined(base, name) == name,
        !(text::utf8(name).len() > 0 && text::utf8(name)[0] == 47) ==> {
            let front = text::utf8(base);
            let whole = text::utf8(joined(base, name));
            &&& front.len() == 0 ==> whole == text::utf8(name)
            &&& front.len() > 0 && front.last() == 47 ==> whole == front + text::utf8(name)
            &&& front.len() > 0 && front.last() != 47 ==> whole == front + seq![47u8] + text::utf8(
                name,
            )
        },
{
    text::lemma_utf8_concat(base, name);
    text::lemma_utf8_concat(base, "/"@);
    text::lemma_utf8_concat(base + "/"@, name);
    reveal_strlit("/");
    assert(vstd::utf8::is_ascii_chars("/"@));
    vstd::utf8::is_ascii_chars_encode_utf8("/"@);
    assert(text::utf8("/"@) =~= seq![47u8]);
    assert(Seq::<u8>::empty() + text::utf8(name) =~= text::utf8(name));
    if text::utf8(base).len() == 0 {
        assert(text::utf8(base) + text::utf8(name) =~= text::utf8(name));
    }
}

/// A path is spelled as its components, each behind a slash, and with one more slash before them
/// where it is absolute.
pub proof fn law_paths_are_spelled_by_their_components(
    parts: Seq<Seq<u8>>,
    name: Seq<u8>,
    path: Seq<u8>,
)
    ensures
        spelled(Seq::<Seq<u8>>::empty()) == Seq::<u8>::empty(),
        spelled(parts.push(name)) == spelled(parts) + seq![47u8] + name,
        path.len() > 0 && path[0] == 47 ==> spelling(path) == seq![47u8] + spelled(
            components(path),
        ),
        !(path.len() > 0 && path[0] == 47) ==> spelling(path) == spelled(components(path)),
{
    assert(parts.push(name).drop_last() =~= parts);
    assert(Seq::<u8>::empty() + spelled(components(path)) =~= spelled(components(path)));
}

/// Slashes more than one and dots alone do not count, but for a dot that a path begins with.
pub proof fn law_slashes_and_dots_do_not_count(path: Seq<u8>)
    ensures
        components(Seq::<u8>::empty()).len() == 0,
        components(seq![46u8]) == seq![seq![46u8]],
        components(path + seq![47u8]) == components(path),
        components(path + seq![47u8, 46u8]) == components(path),
{
    let empty = Seq::<u8>::empty();
    text::law_pieces_end_at_separators(empty, empty, 47);
    text::law_pieces_end_at_separators(seq![46u8], empty, 47);
    reveal_with_fuel(counted, 2);
    assert(text::split(empty, 47) =~= seq![empty]);
    assert(seq![empty].drop_last() =~= Seq::<Seq<u8>>::empty());
    assert(text::split(seq![46u8], 47) =~= seq![seq![46u8]]);
    assert(seq![seq![46u8]].drop_last() =~= Seq::<Seq<u8>>::empty());
    assert(counted(seq![seq![46u8]]) =~= seq![seq![46u8]]);
    text::lemma_split_behind(path, empty, 47);
    text::lemma_split_behind(path, seq![46u8], 47);
    assert(path + seq![47u8] + empty =~= path + seq![47u8]);
    assert(path + seq![47u8] + seq![46u8] =~= path + seq![47u8, 46u8]);
    let pieces = text::split(path, 47);
    assert(pieces.push(empty).drop_last() =~= pieces);
    assert(pieces.push(seq![46u8]).drop_last() =~= pieces);
}

/// The name of a path is its last component, unless that is one dot or two.
pub proof fn law_names_are_no_dots(path: Seq<u8>)
    ensures
        components(path).len() == 0 ==> last_name(path) is None,
        components(path).len() > 0 ==> {
            let last = components(path).last();
            last_name(path) == (if last == seq![46u8] || last == seq![46u8, 46u8] {
                None::<Seq<u8>>
            } else {
                Some(last)
            })
        },
{
}

/// Paths are ordered by their bytes, with the slash before all others.
pub proof fn law_slashes_come_before_all_other_bytes(
    common: Seq<u8>,
    low: u8,
    high: u8,
    left: Seq<u8>,
    right: Seq<u8>,
)
    ensures
        comes_before(common, common + seq![high] + right),
        !comes_before(common + seq![low] + left, common),
        low == 47 && high != 47 ==> comes_before(
            common + seq![low] + left,
            common + seq![high] + right,
        ),
        low != 47 && high == 47 ==> !comes_before(
            common + seq![low] + left,
            common + seq![high] + right,
        ),
        low != 47 && high != 47 && low < high ==> comes_before(
            common + seq![low] + left,
            common + seq![high] + right,
        ),
        low != 47 && high != 47 && low > high ==> !comes_before(
            common + seq![low] + left,
            common + seq![high] + right,
        ),
{
    table::law_the_first_different_byte_decides(
        weights(common),
        weight(low),
        weight(high),
        weights(left),
        weights(right),
    );
    assert(weights(common + seq![low] + left) =~= weights(common) + seq![weight(low)] + weights(
        left,
    ));
    assert(weights(common + seq![high] + right) =~= weights(common) + seq![weight(high)] + weights(
        right,
    ));
}

/// Paths are in order exactly where none comes before an earlier one.
pub proof fn law_ordered_paths_ascend(paths: Seq<Seq<u8>>)
    ensures
        in_order(paths) <==> forall|i: int, j: int|
            0 <= i < j < paths.len() ==> (#[trigger] paths[i] == #[trigger] paths[j]
                || comes_before(paths[i], paths[j])),
{
    let order = not_behind();
    if in_order(paths) {
        assert forall|i: int, j: int| 0 <= i < j < paths.len() implies (#[trigger] paths[i]
            == #[trigger] paths[j] || comes_before(paths[i], paths[j])) by {
            assert(order(paths[i], paths[j]));
        }
    }
    if forall|i: int, j: int|
        0 <= i < j < paths.len() ==> (#[trigger] paths[i] == #[trigger] paths[j] || comes_before(
            paths[i],
            paths[j],
        )) {
        assert forall|i: int, j: int| 0 <= i < j < paths.len() implies #[trigger] order(
            paths[i],
            paths[j],
        ) by {}
    }
}

} // verus!
