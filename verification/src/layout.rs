use vstd::prelude::*;
use vstd::seq_lib::{
    lemma_multiset_commutative, to_multiset_build, to_multiset_contains, to_multiset_len,
    to_multiset_remove,
};

use crate::c_utilities::CompileConfigurations;

verus! {

/// A struct member as the layout engine sees it: its place in the
/// declaration and its size in bytes.
#[derive(Clone, Copy, Debug, PartialEq, Eq, Structural)]
pub struct SizedStructMember {
    pub position: usize,
    pub size: u64,
}

impl SizedStructMember {
    /// The member declared at `position`, with its size in bytes.
    pub fn new(position: usize, size: u64) -> (item: SizedStructMember)
        ensures
            item.position == position,
            item.size == size,
    {
        SizedStructMember { position, size }
    }
}

// Alignment classes

/// The class of a member by its size, tested in this order: 0 for a multiple
/// of 8 (only where the machine word has 8 bytes), 1 for a multiple of 4, 2 for
/// a multiple of 2, 3 for the rest.
pub open spec fn alignment_class(size: u64, word: u64) -> int {
    if size % 8 == 0 && word == 8 {
        0
    } else if size % 4 == 0 {
        1
    } else if size % 2 == 0 {
        2
    } else {
        3
    }
}

/// The members of one class among the first `upto` sizes, in the order of
/// declaration. Members of size 0 belong to no class.
pub open spec fn class_members(sizes: Seq<u64>, word: u64, class: int, upto: int) -> Seq<
    SizedStructMember,
>
    decreases upto,
{
    if upto <= 0 {
        Seq::empty()
    } else if sizes[upto - 1] != 0 && alignment_class(sizes[upto - 1], word) == class {
        class_members(sizes, word, class, upto - 1).push(
            SizedStructMember { position: (upto - 1) as usize, size: sizes[upto - 1] },
        )
    } else {
        class_members(sizes, word, class, upto - 1)
    }
}

// Best fit among the members that have no alignment

/// The members among the first `upto` that are larger than a machine word.
pub open spec fn large_members(items: Seq<SizedStructMember>, word: u64, upto: int) -> Seq<
    SizedStructMember,
>
    decreases upto,
{
    if upto <= 0 {
        Seq::empty()
    } else if items[upto - 1].size > word {
        large_members(items, word, upto - 1).push(items[upto - 1])
    } else {
        large_members(items, word, upto - 1)
    }
}

/// The members among the first `upto` that are no larger than a machine word.
pub open spec fn small_members(items: Seq<SizedStructMember>, word: u64, upto: int) -> Seq<
    SizedStructMember,
>
    decreases upto,
{
    if upto <= 0 {
        Seq::empty()
    } else if items[upto - 1].size > word {
        small_members(items, word, upto - 1)
    } else {
        small_members(items, word, upto - 1).push(items[upto - 1])
    }
}

/// The bytes between the end of a member and the next word boundary.
pub open spec fn leftover_bytes(size: u64, word: u64) -> u64 {
    (word - size % word) as u64
}

/// Looks through the first `upto` members of the pool for the one that fills a
/// gap of `leftover` bytes best. Gives the place of the best one so far, or -1,
/// and the bytes that it leaves free; before any member fits, that is a whole word.
pub open spec fn best_fit_scan(
    pool: Seq<SizedStructMember>,
    leftover: u64,
    word: u64,
    upto: int,
) -> (int, u64)
    decreases upto,
{
    if upto <= 0 {
        (-1, word)
    } else {
        let before = best_fit_scan(pool, leftover, word, upto - 1);
        let size = pool[upto - 1].size;
        if size <= leftover && leftover - size < before.1 {
            (upto - 1, (leftover - size) as u64)
        } else {
            before
        }
    }
}

/// The place in the pool of the member that fills a gap best, or -1.
pub open spec fn best_fit_index(pool: Seq<SizedStructMember>, leftover: u64, word: u64) -> int {
    best_fit_scan(pool, leftover, word, pool.len() as int).0
}

/// What has been laid out, and what is left in the pool, after the first
/// `count` large members have each been followed by their best fit.
pub open spec fn fit_state(
    large: Seq<SizedStructMember>,
    small: Seq<SizedStructMember>,
    word: u64,
    count: int,
) -> (Seq<SizedStructMember>, Seq<SizedStructMember>)
    decreases count,
{
    if count <= 0 {
        (Seq::empty(), small)
    } else {
        let before = fit_state(large, small, word, count - 1);
        let member = large[count - 1];
        let best = best_fit_index(before.1, leftover_bytes(member.size, word), word);
        if best >= 0 {
            (before.0.push(member).push(before.1[best]), before.1.remove(best))
        } else {
            (before.0.push(member), before.1)
        }
    }
}

/// The members without alignment in the order in which they are laid out:
/// each large member, followed by the small member that fills the gap behind
/// it best, then the small members that filled no gap.
pub open spec fn best_fit(items: Seq<SizedStructMember>, word: u64) -> Seq<SizedStructMember> {
    let large = large_members(items, word, items.len() as int);
    let small = small_members(items, word, items.len() as int);
    let state = fit_state(large, small, word, large.len() as int);
    state.0 + state.1
}

/// The layout of a struct whose members have these sizes: the multiples of 8,
/// then those of 4, then those of 2, then the rest by best fit.
pub open spec fn layout_order(sizes: Seq<u64>, word: u64) -> Seq<SizedStructMember> {
    let upto = sizes.len() as int;
    class_members(sizes, word, 0, upto) + class_members(sizes, word, 1, upto) + class_members(
        sizes,
        word,
        2,
        upto,
    ) + best_fit(class_members(sizes, word, 3, upto), word)
}

/// The members in the order of declaration, whatever their size.
pub open spec fn declaration_order(sizes: Seq<u64>) -> Seq<SizedStructMember> {
    Seq::new(sizes.len(), |k: int| SizedStructMember { position: k as usize, size: sizes[k] })
}

// Estimate of the size

/// The boundary on which a member of a given size is assumed to start:
/// 1, 2 or 4 bytes for sizes up to 4, and 8 bytes for anything larger.
pub open spec fn alignment_of(size: u64) -> u64 {
    if size <= 1 {
        1
    } else if size == 2 {
        2
    } else if size <= 4 {
        4
    } else {
        8
    }
}

/// The bytes that are left free in front of a member of a given size which
/// comes at a given offset.
pub open spec fn padding_before(offset: nat, size: u64, pack: bool) -> nat {
    if !pack && size != 0 && offset % (alignment_of(size) as nat) != 0 {
        (alignment_of(size) - offset % (alignment_of(size) as nat)) as nat
    } else {
        0
    }
}

/// The offset behind the first `upto` members of a layout.
pub open spec fn running_size(order: Seq<SizedStructMember>, pack: bool, upto: int) -> nat
    decreases upto,
{
    if upto <= 0 {
        0
    } else {
        let offset = running_size(order, pack, upto - 1);
        offset + padding_before(offset, order[upto - 1].size, pack) + (order[upto
            - 1].size as nat)
    }
}

/// The size of a layout, padding included.
pub open spec fn layout_size(order: Seq<SizedStructMember>, pack: bool) -> nat {
    running_size(order, pack, order.len() as int)
}

// Executable layout engine

/// The class of a member by its size.
pub fn class_of(size: u64, word: u64) -> (class: u8)
    ensures
        class == alignment_class(size, word),
{
    if size % 8 == 0 && word == 8 {
        0
    } else if size % 4 == 0 {
        1
    } else if size % 2 == 0 {
        2
    } else {
        3
    }
}

/// The place in the pool of the member that fills a gap of `leftover` bytes best.
pub fn find_best_fit(pool: &Vec<SizedStructMember>, leftover: u64, word: u64) -> (best: Option<
    usize,
>)
    ensures
        match best {
            Some(index) => index == best_fit_index(pool@, leftover, word) && index < pool.len(),
            None => best_fit_index(pool@, leftover, word) < 0,
        },
{
    let mut best_found_index: Option<usize> = None;
    let mut best_found_size: u64 = word;
    let mut list_index: usize = 0;
    while list_index < pool.len()
        invariant
            list_index <= pool.len(),
            best_fit_scan(pool@, leftover, word, list_index as int).1 == best_found_size,
            match best_found_index {
                Some(index) => index == best_fit_scan(pool@, leftover, word, list_index as int).0
                    && index < list_index,
                None => best_fit_scan(pool@, leftover, word, list_index as int).0 < 0,
            },
        decreases pool.len() - list_index,
    {
        let small = pool[list_index];
        if small.size <= leftover && leftover - small.size < best_found_size {
            best_found_size = leftover - small.size;
            best_found_index = Some(list_index);
        }
        list_index = list_index + 1;
    }
    best_found_index
}

/// Sort the non-aligned members based on the architecture: the gap behind
/// each member that is larger than a word takes the small member that fills it best.
pub fn sort_non_aligned(
    non_aligned: &mut Vec<SizedStructMember>,
    configurations: &CompileConfigurations,
)
    ensures
        final(non_aligned)@ == best_fit(
            old(non_aligned)@,
            configurations.architecture.spec_byte_size() as u64,
        ),
{
    let sorting_value: u64 = configurations.architecture.byte_size() as u64;
    let ghost items = non_aligned@;

    let mut large_values: Vec<SizedStructMember> = Vec::new();
    let mut small_values: Vec<SizedStructMember> = Vec::new();

    // Sort all values into large and small items
    let mut i: usize = 0;
    while i < non_aligned.len()
        invariant
            i <= non_aligned.len(),
            non_aligned@ == items,
            large_values@ == large_members(items, sorting_value, i as int),
            small_values@ == small_members(items, sorting_value, i as int),
        decreases non_aligned.len() - i,
    {
        let member = non_aligned[i];
        if member.size > sorting_value {
            large_values.push(member);
        } else {
            small_values.push(member);
        }
        i = i + 1;
    }

    // Clear old list
    non_aligned.clear();
    let ghost small = small_values@;

    let mut count: usize = 0;
    while count < large_values.len()
        invariant
            count <= large_values.len(),
            sorting_value == 4 || sorting_value == 8,
            (non_aligned@, small_values@) == fit_state(
                large_values@,
                small,
                sorting_value,
                count as int,
            ),
        decreases large_values.len() - count,
    {
        let large = large_values[count];
        non_aligned.push(large);

        let leftover_bytes: u64 = sorting_value - (large.size % sorting_value);

        match find_best_fit(&small_values, leftover_bytes, sorting_value) {
            None => {},
            Some(best_found_index) => {
                non_aligned.push(small_values[best_found_index]);
                small_values.remove(best_found_index);
            },
        }
        count = count + 1;
    }

    let ghost placed = non_aligned@;
    let mut rest: usize = 0;
    while rest < small_values.len()
        invariant
            rest <= small_values.len(),
            non_aligned@ == placed + small_values@.take(rest as int),
        decreases small_values.len() - rest,
    {
        non_aligned.push(small_values[rest]);
        proof {
            assert(small_values@.take(rest + 1) =~= small_values@.take(rest as int).push(
                small_values@[rest as int],
            ));
            assert(non_aligned@ =~= placed + small_values@.take(rest + 1));
        }
        rest = rest + 1;
    }
    proof {
        assert(small_values@.take(small_values.len() as int) =~= small_values@);
    }
}

/// The layout of a struct whose members have these sizes.
pub fn sort_sizes(sizes: &Vec<u64>, configurations: &CompileConfigurations) -> (order: Vec<
    SizedStructMember,
>)
    ensures
        order@ == layout_order(sizes@, configurations.architecture.spec_byte_size() as u64),
{
    let word: u64 = configurations.architecture.byte_size() as u64;
    let mut aligned_8: Vec<SizedStructMember> = Vec::new();
    let mut aligned_4: Vec<SizedStructMember> = Vec::new();
    let mut aligned_2: Vec<SizedStructMember> = Vec::new();
    let mut aligned_1: Vec<SizedStructMember> = Vec::new();

    // Attempt to maintain index order wherever it makes sense
    let mut i: usize = 0;
    while i < sizes.len()
        invariant
            i <= sizes.len(),
            aligned_8@ == class_members(sizes@, word, 0, i as int),
            aligned_4@ == class_members(sizes@, word, 1, i as int),
            aligned_2@ == class_members(sizes@, word, 2, i as int),
            aligned_1@ == class_members(sizes@, word, 3, i as int),
        decreases sizes.len() - i,
    {
        let size: u64 = sizes[i];
        // Zero-size members are discarded
        if size != 0 {
            let class = class_of(size, word);
            if class == 0 {
                aligned_8.push(SizedStructMember::new(i, size));
            } else if class == 1 {
                aligned_4.push(SizedStructMember::new(i, size));
            } else if class == 2 {
                aligned_2.push(SizedStructMember::new(i, size));
            } else {
                aligned_1.push(SizedStructMember::new(i, size));
            }
        }
        i = i + 1;
    }

    // Sort the non-aligned members to allow efficient packing
    sort_non_aligned(&mut aligned_1, configurations);

    // Append all member elements into the full sorted list
    let mut full_list: Vec<SizedStructMember> = Vec::new();
    full_list.append(&mut aligned_8);
    full_list.append(&mut aligned_4);
    full_list.append(&mut aligned_2);
    full_list.append(&mut aligned_1);
    proof {
        assert(full_list@ =~= layout_order(sizes@, word));
    }
    full_list
}

/// The members in the order of declaration.
pub fn keep_order(sizes: &Vec<u64>) -> (order: Vec<SizedStructMember>)
    ensures
        order@ == declaration_order(sizes@),
{
    let mut order: Vec<SizedStructMember> = Vec::new();
    let mut i: usize = 0;
    while i < sizes.len()
        invariant
            i <= sizes.len(),
            order@.len() == i,
            forall|k: int|
                0 <= k < i ==> order@[k] == (SizedStructMember {
                    position: k as usize,
                    size: sizes@[k],
                }),
        decreases sizes.len() - i,
    {
        order.push(SizedStructMember::new(i, sizes[i]));
        i = i + 1;
    }
    proof {
        assert(order@ =~= declaration_order(sizes@));
    }
    order
}

/// The size of a layout with its padding, or nothing where the size does
/// not fit in 64 bits.
pub fn measure(order: &Vec<SizedStructMember>, pack: bool) -> (total: Option<u64>)
    ensures
        match total {
            Some(size) => size == layout_size(order@, pack),
            None => layout_size(order@, pack) > u64::MAX,
        },
{
    let mut total_size: u64 = 0;
    let mut i: usize = 0;
    while i < order.len()
        invariant
            i <= order.len(),
            total_size == running_size(order@, pack, i as int),
        decreases order.len() - i,
    {
        let size: u64 = order[i].size;
        // Assume 8 byte alignment target for items > 4 bytes for worst case scenario
        let member_alignment_size: u64 = if size <= 1 {
            1
        } else if size == 2 {
            2
        } else if size <= 4 {
            4
        } else {
            8
        };
        let mut next: u64 = total_size;
        // Estimate padding if packing disabled, and member does not align
        if !pack && size != 0 && (total_size % member_alignment_size) != 0 {
            let padding: u64 = member_alignment_size - (total_size % member_alignment_size);
            match next.checked_add(padding) {
                Some(padded) => {
                    next = padded;
                },
                None => {
                    proof {
                        lemma_running_size_grows(order@, pack, i + 1, order.len() as int);
                    }
                    return None;
                },
            }
        }
        match next.checked_add(size) {
            Some(sum) => {
                next = sum;
            },
            None => {
                proof {
                    lemma_running_size_grows(order@, pack, i + 1, order.len() as int);
                }
                return None;
            },
        }
        total_size = next;
        i = i + 1;
    }
    Some(total_size)
}

// What the layout keeps

/// Whether every member of a list has a property.
pub open spec fn all_satisfy(
    items: Seq<SizedStructMember>,
    property: spec_fn(SizedStructMember) -> bool,
) -> bool {
    forall|k: int| 0 <= k < items.len() ==> #[trigger] property(items[k])
}

/// The place that a scan finds lies within what was looked through.
pub proof fn lemma_best_fit_scan_in_range(
    pool: Seq<SizedStructMember>,
    leftover: u64,
    word: u64,
    upto: int,
)
    requires
        0 <= upto,
    ensures
        -1 <= best_fit_scan(pool, leftover, word, upto).0 < upto,
    decreases upto,
{
    if upto > 0 {
        lemma_best_fit_scan_in_range(pool, leftover, word, upto - 1);
    }
}

/// Splitting a list into large and small members adds no member.
pub proof fn lemma_split_keeps(
    items: Seq<SizedStructMember>,
    word: u64,
    upto: int,
    property: spec_fn(SizedStructMember) -> bool,
)
    requires
        all_satisfy(items, property),
        0 <= upto <= items.len(),
    ensures
        all_satisfy(large_members(items, word, upto), property),
        all_satisfy(small_members(items, word, upto), property),
    decreases upto,
{
    if upto > 0 {
        lemma_split_keeps(items, word, upto - 1, property);
        assert(property(items[upto - 1]));
    }
}

/// Filling the gaps adds no member: what holds of every large and every
/// small member holds of everything that is laid out or left in the pool.
pub proof fn lemma_fit_state_keeps(
    large: Seq<SizedStructMember>,
    small: Seq<SizedStructMember>,
    word: u64,
    count: int,
    property: spec_fn(SizedStructMember) -> bool,
)
    requires
        all_satisfy(large, property),
        all_satisfy(small, property),
        0 <= count <= large.len(),
    ensures
        all_satisfy(fit_state(large, small, word, count).0, property),
        all_satisfy(fit_state(large, small, word, count).1, property),
    decreases count,
{
    if count > 0 {
        lemma_fit_state_keeps(large, small, word, count - 1, property);
        let before = fit_state(large, small, word, count - 1);
        let member = large[count - 1];
        let best = best_fit_index(before.1, leftover_bytes(member.size, word), word);
        lemma_best_fit_scan_in_range(
            before.1,
            leftover_bytes(member.size, word),
            word,
            before.1.len() as int,
        );
        assert(property(member));
        if best >= 0 {
            assert(property(before.1[best]));
            let after = before.1.remove(best);
            assert forall|k: int| 0 <= k < after.len() implies #[trigger] property(after[k]) by {
                if k < best {
                    assert(after[k] == before.1[k]);
                } else {
                    assert(after[k] == before.1[k + 1]);
                }
                assert(property(before.1[if k < best {
                    k
                } else {
                    k + 1
                }]));
            }
        }
    }
}

/// The best fit pass adds no member: what holds of every member that goes
/// in holds of every member that comes out.
pub proof fn lemma_best_fit_keeps(
    items: Seq<SizedStructMember>,
    word: u64,
    property: spec_fn(SizedStructMember) -> bool,
)
    requires
        all_satisfy(items, property),
    ensures
        all_satisfy(best_fit(items, word), property),
{
    let large = large_members(items, word, items.len() as int);
    let small = small_members(items, word, items.len() as int);
    lemma_split_keeps(items, word, items.len() as int, property);
    lemma_fit_state_keeps(large, small, word, large.len() as int, property);
    let state = fit_state(large, small, word, large.len() as int);
    assert forall|k: int| 0 <= k < (state.0 + state.1).len() implies #[trigger] property(
        (state.0 + state.1)[k],
    ) by {
        if k < state.0.len() {
            assert(property(state.0[k]));
        } else {
            assert(property(state.1[k - state.0.len()]));
        }
    }
}

/// What a member of a struct with given sizes is, in a given class: it stands
/// at a place of the declaration, has the size declared there, which is not
/// zero, and belongs to the class.
pub open spec fn member_of_class(sizes: Seq<u64>, word: u64, class: int) -> spec_fn(
    SizedStructMember,
) -> bool {
    |item: SizedStructMember|
        item.position < sizes.len() && item.size == sizes[item.position as int] && item.size != 0
            && alignment_class(item.size, word) == class
}

/// The members picked for a class are members of that class.
pub proof fn lemma_class_members(sizes: Seq<u64>, word: u64, class: int, upto: int)
    requires
        0 <= upto <= sizes.len(),
        sizes.len() <= usize::MAX,
    ensures
        all_satisfy(class_members(sizes, word, class, upto), member_of_class(sizes, word, class)),
    decreases upto,
{
    if upto > 0 {
        lemma_class_members(sizes, word, class, upto - 1);
        let before = class_members(sizes, word, class, upto - 1);
        let property = member_of_class(sizes, word, class);
        let now = class_members(sizes, word, class, upto);
        assert forall|k: int| 0 <= k < now.len() implies #[trigger] property(now[k]) by {
            if k < before.len() {
                assert(property(before[k]));
            }
        }
    }
}

/// Every member of a layout is a member of the struct, with its own size, and
/// members of size zero are left out.
pub proof fn lemma_layout_order_members(sizes: Seq<u64>, word: u64)
    requires
        sizes.len() <= usize::MAX,
    ensures
        forall|k: int|
            0 <= k < layout_order(sizes, word).len() ==> {
                let item = #[trigger] layout_order(sizes, word)[k];
                item.position < sizes.len() && item.size == sizes[item.position as int]
                    && item.size != 0
            },
{
    let upto = sizes.len() as int;
    let eight = class_members(sizes, word, 0, upto);
    let four = class_members(sizes, word, 1, upto);
    let two = class_members(sizes, word, 2, upto);
    let rest = best_fit(class_members(sizes, word, 3, upto), word);
    lemma_class_members(sizes, word, 0, upto);
    lemma_class_members(sizes, word, 1, upto);
    lemma_class_members(sizes, word, 2, upto);
    lemma_class_members(sizes, word, 3, upto);
    lemma_best_fit_keeps(
        class_members(sizes, word, 3, upto),
        word,
        member_of_class(sizes, word, 3),
    );
    let order = layout_order(sizes, word);
    assert forall|k: int| 0 <= k < order.len() implies {
        let item = #[trigger] order[k];
        item.position < sizes.len() && item.size == sizes[item.position as int] && item.size
            != 0
    } by {
        if k < eight.len() {
            assert(member_of_class(sizes, word, 0)(eight[k]));
        } else if k < eight.len() + four.len() {
            assert(member_of_class(sizes, word, 1)(four[k - eight.len()]));
        } else if k < eight.len() + four.len() + two.len() {
            assert(member_of_class(sizes, word, 2)(two[k - eight.len() - four.len()]));
        } else {
            assert(member_of_class(sizes, word, 3)(rest[k - eight.len() - four.len()
                - two.len()]));
        }
    }
}

// Laws of the layout

/// The property of belonging to an alignment class.
pub open spec fn of_class(word: u64, class: int) -> spec_fn(SizedStructMember) -> bool {
    |item: SizedStructMember| alignment_class(item.size, word) == class
}

/// The members picked for a class belong to that class.
pub proof fn lemma_class_members_of_class(sizes: Seq<u64>, word: u64, class: int, upto: int)
    requires
        0 <= upto <= sizes.len(),
    ensures
        all_satisfy(class_members(sizes, word, class, upto), of_class(word, class)),
    decreases upto,
{
    if upto > 0 {
        lemma_class_members_of_class(sizes, word, class, upto - 1);
        let before = class_members(sizes, word, class, upto - 1);
        let now = class_members(sizes, word, class, upto);
        assert forall|k: int| 0 <= k < now.len() implies #[trigger] of_class(word, class)(
            now[k],
        ) by {
            if k < before.len() {
                assert(of_class(word, class)(before[k]));
            }
        }
    }
}

/// The layout never moves a member across alignment classes: a member of a
/// class never comes behind a member of a later class. The multiples of 8 come
/// first, then those of 4, then those of 2, then the members without alignment.
pub proof fn lemma_layout_keeps_classes(sizes: Seq<u64>, word: u64)
    ensures
        forall|i: int, j: int|
            0 <= i < j < layout_order(sizes, word).len() ==> alignment_class(
                (#[trigger] layout_order(sizes, word)[i]).size,
                word,
            ) <= alignment_class((#[trigger] layout_order(sizes, word)[j]).size, word),
{
    let upto = sizes.len() as int;
    let eight = class_members(sizes, word, 0, upto);
    let four = class_members(sizes, word, 1, upto);
    let two = class_members(sizes, word, 2, upto);
    let rest = best_fit(class_members(sizes, word, 3, upto), word);
    lemma_class_members_of_class(sizes, word, 0, upto);
    lemma_class_members_of_class(sizes, word, 1, upto);
    lemma_class_members_of_class(sizes, word, 2, upto);
    lemma_class_members_of_class(sizes, word, 3, upto);
    lemma_best_fit_keeps(class_members(sizes, word, 3, upto), word, of_class(word, 3));
    let order = layout_order(sizes, word);
    assert forall|k: int| 0 <= k < order.len() implies {
        let class = alignment_class((#[trigger] order[k]).size, word);
        &&& k < eight.len() ==> class == 0
        &&& eight.len() <= k < eight.len() + four.len() ==> class == 1
        &&& eight.len() + four.len() <= k < eight.len() + four.len() + two.len() ==> class == 2
        &&& eight.len() + four.len() + two.len() <= k ==> class == 3
    } by {
        if k < eight.len() {
            assert(of_class(word, 0)(eight[k]));
        } else if k < eight.len() + four.len() {
            assert(of_class(word, 1)(four[k - eight.len()]));
        } else if k < eight.len() + four.len() + two.len() {
            assert(of_class(word, 2)(two[k - eight.len() - four.len()]));
        } else {
            assert(of_class(word, 3)(rest[k - eight.len() - four.len() - two.len()]));
        }
    }
}

/// Splitting a list into large and small members neither drops a member nor
/// takes one twice.
pub proof fn lemma_split_is_partition(items: Seq<SizedStructMember>, word: u64, upto: int)
    requires
        0 <= upto <= items.len(),
    ensures
        large_members(items, word, upto).to_multiset().add(
            small_members(items, word, upto).to_multiset(),
        ) =~= items.take(upto).to_multiset(),
    decreases upto,
{
    if upto == 0 {
        let none = Seq::<SizedStructMember>::empty();
        assert(items.take(0) =~= none);
        assert(none + none =~= none);
        lemma_multiset_commutative(none, none);
    } else {
        lemma_split_is_partition(items, word, upto - 1);
        let member = items[upto - 1];
        assert(items.take(upto) =~= items.take(upto - 1).push(member));
        to_multiset_build(items.take(upto - 1), member);
        to_multiset_build(large_members(items, word, upto - 1), member);
        to_multiset_build(small_members(items, word, upto - 1), member);
    }
}

/// Filling the gaps neither drops a member nor takes one twice: what is laid
/// out and what is left in the pool are together the large members that were
/// looked at and all the small members.
pub proof fn lemma_fit_state_is_partition(
    large: Seq<SizedStructMember>,
    small: Seq<SizedStructMember>,
    word: u64,
    count: int,
)
    requires
        0 <= count <= large.len(),
    ensures
        fit_state(large, small, word, count).0.to_multiset().add(
            fit_state(large, small, word, count).1.to_multiset(),
        ) =~= large.take(count).to_multiset().add(small.to_multiset()),
    decreases count,
{
    if count == 0 {
        let none = Seq::<SizedStructMember>::empty();
        assert(large.take(0) =~= none);
    } else {
        lemma_fit_state_is_partition(large, small, word, count - 1);
        let before = fit_state(large, small, word, count - 1);
        let member = large[count - 1];
        let best = best_fit_index(before.1, leftover_bytes(member.size, word), word);
        lemma_best_fit_scan_in_range(
            before.1,
            leftover_bytes(member.size, word),
            word,
            before.1.len() as int,
        );
        assert(large.take(count) =~= large.take(count - 1).push(member));
        to_multiset_build(large.take(count - 1), member);
        to_multiset_build(before.0, member);
        let placed = before.0.to_multiset();
        let pool = before.1.to_multiset();
        let seen = large.take(count - 1).to_multiset();
        let all_small = small.to_multiset();
        assert(placed.add(pool) =~= seen.add(all_small));
        assert(seen.insert(member).add(all_small) =~= seen.add(all_small).insert(member));
        if best >= 0 {
            let filler = before.1[best];
            to_multiset_build(before.0.push(member), filler);
            to_multiset_remove(before.1, best);
            to_multiset_contains(before.1, filler);
            assert(before.1.contains(filler));
            assert(pool.count(filler) > 0);
            assert(placed.insert(member).insert(filler).add(pool.remove(filler)) =~= placed.add(
                pool,
            ).insert(member));
        } else {
            assert(placed.insert(member).add(pool) =~= placed.add(pool).insert(member));
        }
    }
}

/// The best fit pass gives back every member exactly as often as it was
/// given: no member is lost, and no small member fills two gaps.
pub proof fn lemma_best_fit_is_permutation(items: Seq<SizedStructMember>, word: u64)
    ensures
        best_fit(items, word).to_multiset() =~= items.to_multiset(),
        best_fit(items, word).len() == items.len(),
{
    let large = large_members(items, word, items.len() as int);
    let small = small_members(items, word, items.len() as int);
    let state = fit_state(large, small, word, large.len() as int);
    lemma_split_is_partition(items, word, items.len() as int);
    lemma_fit_state_is_partition(large, small, word, large.len() as int);
    lemma_multiset_commutative(state.0, state.1);
    assert(large.take(large.len() as int) =~= large);
    assert(items.take(items.len() as int) =~= items);
    to_multiset_len(best_fit(items, word));
    to_multiset_len(items);
}

/// The members of a size other than zero among the first `upto`, in the
/// order of declaration.
pub open spec fn sized_members(sizes: Seq<u64>, upto: int) -> Seq<SizedStructMember>
    decreases upto,
{
    if upto <= 0 {
        Seq::empty()
    } else if sizes[upto - 1] != 0 {
        sized_members(sizes, upto - 1).push(
            SizedStructMember { position: (upto - 1) as usize, size: sizes[upto - 1] },
        )
    } else {
        sized_members(sizes, upto - 1)
    }
}

/// Every member of a size other than zero belongs to exactly one of the four
/// alignment classes.
pub proof fn lemma_classes_are_partition(sizes: Seq<u64>, word: u64, upto: int)
    requires
        0 <= upto <= sizes.len(),
    ensures
        class_members(sizes, word, 0, upto).to_multiset().add(
            class_members(sizes, word, 1, upto).to_multiset(),
        ).add(class_members(sizes, word, 2, upto).to_multiset()).add(
            class_members(sizes, word, 3, upto).to_multiset(),
        ) =~= sized_members(sizes, upto).to_multiset(),
    decreases upto,
{
    if upto == 0 {
        let none = Seq::<SizedStructMember>::empty();
        assert(none + none =~= none);
        lemma_multiset_commutative(none, none);
    } else {
        lemma_classes_are_partition(sizes, word, upto - 1);
        if sizes[upto - 1] != 0 {
            let member = SizedStructMember { position: (upto - 1) as usize, size: sizes[upto - 1] };
            to_multiset_build(class_members(sizes, word, 0, upto - 1), member);
            to_multiset_build(class_members(sizes, word, 1, upto - 1), member);
            to_multiset_build(class_members(sizes, word, 2, upto - 1), member);
            to_multiset_build(class_members(sizes, word, 3, upto - 1), member);
            to_multiset_build(sized_members(sizes, upto - 1), member);
        }
    }
}

/// The layout holds every member of a size other than zero exactly once: it
/// loses no member and lays none out twice.
pub proof fn lemma_layout_is_permutation(sizes: Seq<u64>, word: u64)
    ensures
        layout_order(sizes, word).to_multiset() =~= sized_members(
            sizes,
            sizes.len() as int,
        ).to_multiset(),
{
    let upto = sizes.len() as int;
    let eight = class_members(sizes, word, 0, upto);
    let four = class_members(sizes, word, 1, upto);
    let two = class_members(sizes, word, 2, upto);
    let rest = best_fit(class_members(sizes, word, 3, upto), word);
    lemma_classes_are_partition(sizes, word, upto);
    lemma_best_fit_is_permutation(class_members(sizes, word, 3, upto), word);
    lemma_multiset_commutative(eight, four);
    lemma_multiset_commutative(eight + four, two);
    lemma_multiset_commutative(eight + four + two, rest);
}

/// The member that a scan finds fits into the gap.
pub proof fn lemma_best_fit_scan_fits(
    pool: Seq<SizedStructMember>,
    leftover: u64,
    word: u64,
    upto: int,
)
    requires
        0 <= upto <= pool.len(),
    ensures
        best_fit_scan(pool, leftover, word, upto).0 >= 0 ==> pool[best_fit_scan(
            pool,
            leftover,
            word,
            upto,
        ).0].size <= leftover,
    decreases upto,
{
    if upto > 0 {
        lemma_best_fit_scan_fits(pool, leftover, word, upto - 1);
    }
}

/// The scan finds the member that leaves the fewest bytes of the gap free,
/// and among equals the first: nothing that fits leaves fewer bytes free, and
/// nothing in front of it leaves as few.
pub proof fn lemma_best_fit_scan_is_best(
    pool: Seq<SizedStructMember>,
    leftover: u64,
    word: u64,
    upto: int,
)
    requires
        0 <= upto <= pool.len(),
        leftover <= word,
    ensures
        ({
            let found = best_fit_scan(pool, leftover, word, upto);
            &&& found.0 < 0 ==> found.1 == word && forall|k: int|
                0 <= k < upto ==> !((#[trigger] pool[k]).size <= leftover && leftover - pool[k].size
                    < word)
            &&& found.0 >= 0 ==> found.1 == leftover - pool[found.0].size && forall|k: int|
                0 <= k < upto && (#[trigger] pool[k]).size <= leftover ==> {
                    &&& leftover - pool[k].size >= found.1
                    &&& k < found.0 ==> leftover - pool[k].size > found.1
                }
        }),
    decreases upto,
{
    if upto > 0 {
        lemma_best_fit_scan_is_best(pool, leftover, word, upto - 1);
        lemma_best_fit_scan_in_range(pool, leftover, word, upto - 1);
    }
}

/// Whether every small member of a list stands directly behind a large
/// member whose gap it fits into.
pub open spec fn fills_gaps(placed: Seq<SizedStructMember>, word: u64) -> bool {
    forall|p: int|
        0 <= p < placed.len() && (#[trigger] placed[p]).size <= word ==> {
            &&& p > 0
            &&& placed[p - 1].size > word
            &&& placed[p].size <= leftover_bytes(placed[p - 1].size, word)
        }
}

/// Every small member that is laid out between the large members fills the
/// gap of the large member in front of it.
pub proof fn lemma_fit_state_fills_gaps(
    large: Seq<SizedStructMember>,
    small: Seq<SizedStructMember>,
    word: u64,
    count: int,
)
    requires
        0 <= count <= large.len(),
        all_satisfy(large, |item: SizedStructMember| item.size > word),
        all_satisfy(small, |item: SizedStructMember| item.size <= word),
    ensures
        fills_gaps(fit_state(large, small, word, count).0, word),
        all_satisfy(
            fit_state(large, small, word, count).1,
            |item: SizedStructMember| item.size <= word,
        ),
    decreases count,
{
    let is_large = |item: SizedStructMember| item.size > word;
    let is_small = |item: SizedStructMember| item.size <= word;
    if count > 0 {
        lemma_fit_state_fills_gaps(large, small, word, count - 1);
        let before = fit_state(large, small, word, count - 1);
        let member = large[count - 1];
        let leftover = leftover_bytes(member.size, word);
        let best = best_fit_index(before.1, leftover, word);
        lemma_best_fit_scan_in_range(before.1, leftover, word, before.1.len() as int);
        lemma_best_fit_scan_fits(before.1, leftover, word, before.1.len() as int);
        assert(is_large(member));
        let now = fit_state(large, small, word, count);
        assert forall|p: int| 0 <= p < now.0.len() && (#[trigger] now.0[p]).size <= word implies {
            &&& p > 0
            &&& now.0[p - 1].size > word
            &&& now.0[p].size <= leftover_bytes(now.0[p - 1].size, word)
        } by {
            if p < before.0.len() {
                assert(now.0[p] == before.0[p]);
                if p > 0 {
                    assert(now.0[p - 1] == before.0[p - 1]);
                }
            }
        }
        if best >= 0 {
            assert(is_small(before.1[best]));
            assert forall|k: int| 0 <= k < now.1.len() implies #[trigger] is_small(now.1[k]) by {
                if k < best {
                    assert(now.1[k] == before.1[k]);
                    assert(is_small(before.1[k]));
                } else {
                    assert(now.1[k] == before.1[k + 1]);
                    assert(is_small(before.1[k + 1]));
                }
            }
        }
    }
}

/// No small member stands in front of the large member whose gap it fills:
/// a small member with a large member somewhere behind it stands directly
/// behind a large member, and fits into the gap of that one.
pub proof fn lemma_best_fit_follows_large(items: Seq<SizedStructMember>, word: u64)
    ensures
        forall|p: int, q: int|
            0 <= p < q < best_fit(items, word).len() && (#[trigger] best_fit(items, word)[p]).size
                <= word && (#[trigger] best_fit(items, word)[q]).size > word ==> {
                &&& p > 0
                &&& best_fit(items, word)[p - 1].size > word
                &&& best_fit(items, word)[p].size <= leftover_bytes(
                    best_fit(items, word)[p - 1].size,
                    word,
                )
            },
{
    let is_large = |item: SizedStructMember| item.size > word;
    let is_small = |item: SizedStructMember| item.size <= word;
    let large = large_members(items, word, items.len() as int);
    let small = small_members(items, word, items.len() as int);
    lemma_split_sizes(items, word, items.len() as int);
    lemma_fit_state_fills_gaps(large, small, word, large.len() as int);
    let state = fit_state(large, small, word, large.len() as int);
    let result = best_fit(items, word);
    assert forall|p: int, q: int|
        0 <= p < q < result.len() && (#[trigger] result[p]).size <= word && (
        #[trigger] result[q]).size > word implies {
        &&& p > 0
        &&& result[p - 1].size > word
        &&& result[p].size <= leftover_bytes(result[p - 1].size, word)
    } by {
        if q >= state.0.len() {
            assert(is_small(state.1[q - state.0.len()]));
        }
        assert(result[p] == state.0[p]);
        if p > 0 {
            assert(result[p - 1] == state.0[p - 1]);
        }
    }
}

/// The large members are larger than a word, the small ones are not.
pub proof fn lemma_split_sizes(items: Seq<SizedStructMember>, word: u64, upto: int)
    requires
        0 <= upto <= items.len(),
    ensures
        all_satisfy(
            large_members(items, word, upto),
            |item: SizedStructMember| item.size > word,
        ),
        all_satisfy(
            small_members(items, word, upto),
            |item: SizedStructMember| item.size <= word,
        ),
    decreases upto,
{
    let is_large = |item: SizedStructMember| item.size > word;
    let is_small = |item: SizedStructMember| item.size <= word;
    if upto > 0 {
        lemma_split_sizes(items, word, upto - 1);
        let large = large_members(items, word, upto);
        let small = small_members(items, word, upto);
        assert forall|k: int| 0 <= k < large.len() implies #[trigger] is_large(large[k]) by {
            if k < large_members(items, word, upto - 1).len() {
                assert(is_large(large_members(items, word, upto - 1)[k]));
            }
        }
        assert forall|k: int| 0 <= k < small.len() implies #[trigger] is_small(small[k]) by {
            if k < small_members(items, word, upto - 1).len() {
                assert(is_small(small_members(items, word, upto - 1)[k]));
            }
        }
    }
}

/// Whether no member of a layout needs padding in front of it: the offset
/// at which it comes is a multiple of its alignment.
pub open spec fn never_padded(order: Seq<SizedStructMember>) -> bool {
    forall|k: int|
        0 <= k < order.len() ==> padding_before(
            #[trigger] running_size(order, false, k),
            order[k].size,
            false,
        ) == 0
}

/// The first members of a layout take no fewer bytes with padding than
/// without, and as many where none of them needs padding.
pub proof fn lemma_running_size_with_padding(order: Seq<SizedStructMember>, upto: int)
    requires
        0 <= upto <= order.len(),
    ensures
        running_size(order, false, upto) >= running_size(order, true, upto),
        never_padded(order) ==> running_size(order, false, upto) == running_size(
            order,
            true,
            upto,
        ),
        running_size(order, true, upto) == 0 ==> running_size(order, false, upto) == 0,
    decreases upto,
{
    if upto > 0 {
        lemma_running_size_with_padding(order, upto - 1);
        if never_padded(order) {
            assert(padding_before(
                running_size(order, false, upto - 1),
                order[upto - 1].size,
                false,
            ) == 0);
        }
    }
}

/// The estimate of a size with padding is never smaller than the estimate
/// for packed data, and the two are equal where no member needs padding.
pub proof fn lemma_padding_never_shrinks(order: Seq<SizedStructMember>)
    ensures
        layout_size(order, false) >= layout_size(order, true),
        never_padded(order) ==> layout_size(order, false) == layout_size(order, true),
        layout_size(order, true) == 0 ==> layout_size(order, false) == 0,
{
    lemma_running_size_with_padding(order, order.len() as int);
}

/// The offset never shrinks as more members are laid out.
pub proof fn lemma_running_size_grows(
    order: Seq<SizedStructMember>,
    pack: bool,
    earlier: int,
    later: int,
)
    requires
        earlier <= later,
    ensures
        running_size(order, pack, earlier) <= running_size(order, pack, later),
    decreases later - earlier,
{
    if earlier < later {
        lemma_running_size_grows(order, pack, earlier, later - 1);
    }
}

} // verus!
