//! Pools of buffers that are kept for reuse.
use std::collections::HashMap;

use vstd::prelude::*;
use vstd::std_specs::hash::*;
use vstd::std_specs::iter::IteratorSpec;
use vstd::string::*;

use crate::gpu::{buffer_info, create_buffer, size_of_buffer, BufferUse, Gpu};
use crate::text::decimal_text;

verus! {

broadcast use vstd::std_specs::hash::group_hash_axioms;

// ── Size classes ─────────────────────────────────────────────────────────────

/// The smallest size class: a buffer is never smaller than this.
pub const MIN_CLASS: u64 = 64;

/// The largest size class that a `u64` holds.
pub const MAX_CLASS: u64 = 0x8000_0000_0000_0000;

/// The first of `class`, `2 * class`, `4 * class`, ... that is at least `n`.
pub open spec fn class_from(class: nat, n: nat) -> nat
    decreases (if class < n { n - class } else { 0 }),
{
    if class >= n || class == 0 {
        class
    } else {
        class_from(2 * class, n)
    }
}

/// The size class of a request for `n` bytes: the smallest power of two that is at least `n` and
/// at least [`MIN_CLASS`].
pub open spec fn size_class(n: nat) -> nat {
    class_from(MIN_CLASS as nat, n)
}

/// `class` is a power of two.
pub open spec fn is_power_of_two(class: nat) -> bool
    decreases class,
{
    class == 1 || (class > 1 && class % 2 == 0 && is_power_of_two(class / 2))
}

proof fn lemma_class_from(class: nat, n: nat)
    requires
        is_power_of_two(class),
    ensures
        is_power_of_two(class_from(class, n)),
        class_from(class, n) >= class,
        class_from(class, n) >= n,
        class_from(class, n) == class || class_from(class, n) < 2 * n,
    decreases (if class < n { n - class } else { 0 }),
{
    if class < n {
        assert((2 * class) / 2 == class);
        lemma_class_from(2 * class, n);
    }
}

pub proof fn lemma_powers_apart(a: nat, b: nat)
    requires
        is_power_of_two(a),
        is_power_of_two(b),
        a < b,
    ensures
        2 * a <= b,
    decreases b,
{
    if a > 1 {
        lemma_powers_apart(a / 2, b / 2);
    }
}

/// A size class is a power of two, large enough, and no smaller power of two from [`MIN_CLASS`] up
/// is; it is less than twice the request, unless it is [`MIN_CLASS`].
pub proof fn law_size_class_is_the_smallest(n: nat, other: nat)
    requires
        is_power_of_two(other),
        other >= MIN_CLASS,
        other >= n,
    ensures
        is_power_of_two(size_class(n)),
        size_class(n) >= MIN_CLASS,
        size_class(n) >= n,
        size_class(n) <= other,
        size_class(n) == MIN_CLASS || size_class(n) < 2 * n,
{
    lemma_end_classes();
    lemma_class_from(MIN_CLASS as nat, n);
    if other < size_class(n) {
        lemma_powers_apart(other, size_class(n));
    }
}

/// A buffer of `size` bytes is what `n` bytes are kept in: a power of two that is large enough, at least 64,
/// and with one half of it too small where it is more than that.
pub open spec fn fitting(size: u64, n: nat) -> bool {
    &&& is_power_of_two(size as nat)
    &&& size >= 64
    &&& size >= n
    &&& size > 64 ==> size < 2 * n
}

/// The size class of `n` bytes is what they are kept in.
pub proof fn law_size_class_is_fitting(n: nat)
    ensures
        size_class(n) <= u64::MAX ==> fitting(size_class(n) as u64, n),
{
    lemma_end_classes();
    lemma_class_from(MIN_CLASS as nat, n);
    law_size_class_is_the_smallest(n, size_class(n));
}

/// The smallest and the largest size class are powers of two.
pub proof fn lemma_end_classes()
    ensures
        is_power_of_two(64),
        is_power_of_two(MAX_CLASS as nat),
{
    reveal_with_fuel(is_power_of_two, 64);
}

/// A size class is large enough.
pub proof fn lemma_class_covers(n: nat)
    ensures
        is_power_of_two(size_class(n)),
        size_class(n) >= n,
        size_class(n) >= MIN_CLASS,
{
    lemma_end_classes();
    lemma_class_from(MIN_CLASS as nat, n);
}

/// A size class that a `u64` holds is between the smallest and the largest, and whole words.
pub proof fn lemma_class_is_power(class: nat)
    requires
        size_class(class) == class,
        class <= u64::MAX,
    ensures
        is_power_of_two(class),
        MIN_CLASS <= class <= MAX_CLASS,
        class % 4 == 0,
{
    lemma_end_classes();
    lemma_class_from(MIN_CLASS as nat, class);
    if class > MAX_CLASS {
        lemma_powers_apart(MAX_CLASS as nat, class);
    }
    reveal_with_fuel(is_power_of_two, 3);
}

/// The size class of a size class is that class itself: a buffer goes back where it came from.
pub proof fn law_size_class_is_stable(n: nat)
    ensures
        size_class(size_class(n)) == size_class(n),
{
    lemma_end_classes();
    lemma_class_from(MIN_CLASS as nat, n);
    lemma_class_from(MIN_CLASS as nat, size_class(n));
    if size_class(size_class(n)) != size_class(n) {
        lemma_powers_apart(size_class(n), size_class(size_class(n)));
    }
}

/// A larger request never has a smaller class.
pub proof fn law_size_class_is_monotone(m: nat, n: nat)
    requires
        m <= n,
    ensures
        size_class(m) <= size_class(n),
{
    lemma_end_classes();
    lemma_class_from(MIN_CLASS as nat, n);
    law_size_class_is_the_smallest(m, size_class(n));
}

/// The size class of a request.
pub fn class_of(byte_size: u64) -> (class: u64)
    requires
        byte_size <= MAX_CLASS,
    ensures
        class == size_class(byte_size as nat),
{
    proof {
        lemma_end_classes();
        lemma_class_from(MIN_CLASS as nat, byte_size as nat);
    }
    let mut class: u64 = MIN_CLASS;
    while class < byte_size
        invariant
            byte_size <= MAX_CLASS,
            is_power_of_two(class as nat),
            is_power_of_two(MAX_CLASS as nat),
            class >= MIN_CLASS,
            class_from(class as nat, byte_size as nat) == size_class(byte_size as nat),
        decreases MAX_CLASS - class,
    {
        proof {
            lemma_powers_apart(class as nat, MAX_CLASS as nat);
            assert((2 * class) as nat / 2 == class);
        }
        class = 2 * class;
    }
    class
}

/// Whether a size is one of the size classes.
fn is_class(size: u64) -> (is: bool)
    ensures
        is == (size_class(size as nat) == size),
{
    proof {
        if size_class(size as nat) == size {
            lemma_class_is_power(size as nat);
        }
    }
    size <= MAX_CLASS && class_of(size) == size
}

// ── Stock ────────────────────────────────────────────────────────────────────

/// The buffers of one class in a stock; the last one is the next to be handed out.
pub open spec fn kept(stock: Map<u64, Seq<wgpu::Buffer>>, class: u64) -> Seq<wgpu::Buffer> {
    if stock.contains_key(class) {
        stock[class]
    } else {
        Seq::empty()
    }
}

/// The number of buffers in the given classes of a stock.
pub open spec fn count_in(stock: Map<u64, Seq<wgpu::Buffer>>, classes: Set<u64>) -> nat
    decreases classes.len(),
{
    if classes.finite() && classes.len() > 0 {
        let class = classes.choose();
        stock[class].len() + count_in(stock, classes.remove(class))
    } else {
        0
    }
}

/// The number of buffers in a stock.
pub open spec fn count(stock: Map<u64, Seq<wgpu::Buffer>>) -> nat {
    count_in(stock, stock.dom())
}

/// The stock is by size class, and no class has more than the maximum.
pub open spec fn capped(stock: Map<u64, Seq<wgpu::Buffer>>, max_per_class: nat) -> bool {
    &&& stock.dom().finite()
    &&& forall|class: u64| #[trigger]
        stock.contains_key(class) ==> stock[class].len() <= max_per_class && size_class(class as nat)
            == class
}

/// Each buffer in the stock has the size of its class.
pub open spec fn by_size(stock: Map<u64, Seq<wgpu::Buffer>>) -> bool {
    forall|class: u64, i: int|
        #![trigger stock[class][i]]
        in_stock(stock, class, i) ==> buffer_info(stock[class][i]).size == class
}

/// It does not matter in which order the classes are counted.
proof fn lemma_count_in(stock: Map<u64, Seq<wgpu::Buffer>>, classes: Set<u64>, class: u64)
    requires
        classes.finite(),
        classes.contains(class),
    ensures
        count_in(stock, classes) == stock[class].len() + count_in(stock, classes.remove(class)),
    decreases classes.len(),
{
    let first = classes.choose();
    if first != class {
        lemma_count_in(stock, classes.remove(first), class);
        lemma_count_in(stock, classes.remove(class), first);
        assert(classes.remove(first).remove(class) =~= classes.remove(class).remove(first));
    }
}

/// The stock once a buffer was given back: it is the last of its class, unless the class is full. A
/// buffer whose size is no class is not kept.
pub open spec fn after_release(
    stock: Map<u64, Seq<wgpu::Buffer>>,
    max_per_class: nat,
    buffer: wgpu::Buffer,
) -> Map<u64, Seq<wgpu::Buffer>> {
    let class = buffer_info(buffer).size;
    let bucket = kept(stock, class);
    if size_class(class as nat) == class {
        stock.insert(
            class,
            if bucket.len() < max_per_class {
                bucket.push(buffer)
            } else {
                bucket
            },
        )
    } else {
        stock
    }
}

/// The stock once the next buffer of a class was handed out.
pub open spec fn after_reuse(stock: Map<u64, Seq<wgpu::Buffer>>, class: u64) -> Map<
    u64,
    Seq<wgpu::Buffer>,
> {
    stock.insert(class, kept(stock, class).drop_last())
}

/// What a compute buffer is created for.
pub open spec fn compute_use() -> BufferUse {
    BufferUse { map_read: false, copy_src: true, copy_dst: true, storage: true, uniform: false }
}

/// What a staging buffer is created for.
pub open spec fn staging_use() -> BufferUse {
    BufferUse { map_read: true, copy_src: false, copy_dst: true, storage: false, uniform: false }
}

/// What a buffer for a shader's parameters is created for.
pub open spec fn uniform_use() -> BufferUse {
    BufferUse { map_read: false, copy_src: false, copy_dst: true, storage: false, uniform: true }
}

/// There is an `i`th buffer of the class in the stock.
pub open spec fn in_stock(stock: Map<u64, Seq<wgpu::Buffer>>, class: u64, i: int) -> bool {
    stock.contains_key(class) && 0 <= i < stock[class].len()
}

/// The buffer is in the stock.
pub open spec fn stores(stock: Map<u64, Seq<wgpu::Buffer>>, id: nat) -> bool {
    exists|class: u64, i: int|
        #![trigger stock[class][i]]
        in_stock(stock, class, i) && buffer_info(stock[class][i]).id == id
}

/// Each buffer in the stock is there once, is of the size of its class, is made for the given use
/// and ready to be used on the device.
pub open spec fn stocked(stock: Map<u64, Seq<wgpu::Buffer>>, gpu: Gpu, usage: BufferUse) -> bool {
    &&& forall|class: u64, i: int|
        #![trigger stock[class][i]]
        in_stock(stock, class, i) ==> {
            let info = buffer_info(stock[class][i]);
            &&& gpu.usable(stock[class][i])
            &&& info.size == class
            &&& info.usage == usage
        }
    &&& forall|c1: u64, i1: int, c2: u64, i2: int|
        #![trigger stock[c1][i1], stock[c2][i2]]
        in_stock(stock, c1, i1) && in_stock(stock, c2, i2) && buffer_info(
            stock[c1][i1],
        ).id == buffer_info(stock[c2][i2]).id ==> c1 == c2 && i1 == i2
}

/// Handing a buffer out takes it, and only it, out of the stock.
pub proof fn lemma_reuse(stock: Map<u64, Seq<wgpu::Buffer>>, gpu: Gpu, usage: BufferUse, class: u64)
    requires
        stocked(stock, gpu, usage),
        kept(stock, class).len() > 0,
    ensures
        ({
            let buffer = kept(stock, class).last();
            let info = buffer_info(buffer);
            &&& stocked(after_reuse(stock, class), gpu, usage)
            &&& gpu.usable(buffer) && info.size == class && info.usage == usage
            &&& stores(stock, info.id)
            &&& forall|id: nat| #[trigger]
                stores(after_reuse(stock, class), id) <==> stores(stock, id) && id != info.id
        }),
{
    let after = after_reuse(stock, class);
    let n = stock[class].len() - 1;
    let buffer = stock[class][n];
    let taken = buffer_info(buffer).id;
    assert(in_stock(stock, class, n));
    assert forall|c: u64, i: int| #![trigger after[c][i]] in_stock(after, c, i) implies in_stock(
        stock,
        c,
        i,
    ) && after[c][i] == stock[c][i] && buffer_info(after[c][i]).id != taken by {
        assert(stock[c][i] == after[c][i]);
    }
    assert forall|id: nat| #[trigger] stores(after, id) <==> stores(stock, id) && id != taken by {
        if stores(after, id) {
            let (c, i) = choose|c: u64, i: int|
                #![trigger after[c][i]]
                in_stock(after, c, i) && buffer_info(after[c][i]).id == id;
            assert(buffer_info(stock[c][i]).id == id);
        }
        if stores(stock, id) && id != taken {
            let (c, i) = choose|c: u64, i: int|
                #![trigger stock[c][i]]
                in_stock(stock, c, i) && buffer_info(stock[c][i]).id == id;
            assert(in_stock(after, c, i) && after[c][i] == stock[c][i]);
        }
    }
}

/// Putting a buffer that is not in the stock behind its class keeps the stock in order.
pub proof fn lemma_restock(
    stock: Map<u64, Seq<wgpu::Buffer>>,
    gpu: Gpu,
    usage: BufferUse,
    buffer: wgpu::Buffer,
)
    requires
        stocked(stock, gpu, usage),
        gpu.usable(buffer),
        buffer_info(buffer).usage == usage,
        !stores(stock, buffer_info(buffer).id),
    ensures
        ({
            let info = buffer_info(buffer);
            let after = stock.insert(info.size, kept(stock, info.size).push(buffer));
            &&& stocked(after, gpu, usage)
            &&& forall|id: nat| #[trigger] stores(after, id) <==> stores(stock, id) || id == info.id
        }),
{
    let info = buffer_info(buffer);
    let class = info.size;
    let bucket = kept(stock, class);
    let after = stock.insert(class, bucket.push(buffer));
    let n = bucket.len() as int;
    assert(in_stock(after, class, n) && after[class][n] == buffer);
    assert forall|c: u64, i: int| #![trigger after[c][i]] in_stock(after, c, i) && !(c == class && i == n) implies in_stock(
        stock,
        c,
        i,
    ) && after[c][i] == stock[c][i] && buffer_info(after[c][i]).id != info.id by {
        assert(stock[c][i] == after[c][i]);
    }
    assert forall|id: nat| #[trigger] stores(after, id) <==> stores(stock, id) || id == info.id by {
        if stores(after, id) && id != info.id {
            let (c, i) = choose|c: u64, i: int|
                #![trigger after[c][i]]
                in_stock(after, c, i) && buffer_info(after[c][i]).id == id;
            assert(buffer_info(stock[c][i]).id == id);
        }
        if stores(stock, id) {
            let (c, i) = choose|c: u64, i: int|
                #![trigger stock[c][i]]
                in_stock(stock, c, i) && buffer_info(stock[c][i]).id == id;
            assert(in_stock(after, c, i) && after[c][i] == stock[c][i]);
        }
    }
}

/// Keeping a class as it is keeps the stock in order, also where the class was not there.
pub proof fn lemma_same_stock(
    stock: Map<u64, Seq<wgpu::Buffer>>,
    gpu: Gpu,
    usage: BufferUse,
    class: u64,
)
    requires
        stocked(stock, gpu, usage),
    ensures
        stocked(stock.insert(class, kept(stock, class)), gpu, usage),
        forall|id: nat| #[trigger]
            stores(stock.insert(class, kept(stock, class)), id) <==> stores(stock, id),
{
    let after = stock.insert(class, kept(stock, class));
    assert forall|c: u64, i: int| #![trigger after[c][i]] in_stock(after, c, i) implies in_stock(
        stock,
        c,
        i,
    ) && after[c][i] == stock[c][i] by {
        assert(stock[c][i] == after[c][i]);
    }
    assert forall|id: nat| #[trigger] stores(after, id) <==> stores(stock, id) by {
        if stores(after, id) {
            let (c, i) = choose|c: u64, i: int|
                #![trigger after[c][i]]
                in_stock(after, c, i) && buffer_info(after[c][i]).id == id;
            assert(buffer_info(stock[c][i]).id == id);
        }
        if stores(stock, id) {
            let (c, i) = choose|c: u64, i: int|
                #![trigger stock[c][i]]
                in_stock(stock, c, i) && buffer_info(stock[c][i]).id == id;
            assert(in_stock(after, c, i) && after[c][i] == stock[c][i]);
        }
    }
}

/// Stocking a class that is not there with new buffers keeps the stock in order.
pub proof fn lemma_new_class(
    stock: Map<u64, Seq<wgpu::Buffer>>,
    before: Gpu,
    gpu: Gpu,
    usage: BufferUse,
    class: u64,
    bucket: Seq<wgpu::Buffer>,
    more: Seq<wgpu::Buffer>,
)
    requires
        stocked(stock, before, usage),
        !stock.contains_key(class),
        gpu.grown(before, bucket + more, class, usage),
    ensures
        stocked(stock.insert(class, bucket), gpu, usage),
        forall|id: nat| #[trigger]
            stores(stock.insert(class, bucket), id) ==> stores(stock, id)
                || !before.memory().contains_key(id),
        forall|id: nat| #[trigger] stores(stock, id) ==> stores(stock.insert(class, bucket), id),
        forall|i: int|
            0 <= i < more.len() ==> !stores(
                stock.insert(class, bucket),
                buffer_info(#[trigger] more[i]).id,
            ),
{
    let added = bucket + more;
    let after = stock.insert(class, bucket);
    assert forall|i: int| 0 <= i < bucket.len() implies #[trigger] bucket[i] == added[i] by {}
    assert forall|i: int| 0 <= i < more.len() implies #[trigger] more[i] == added[bucket.len() + i] by {}
    assert forall|c: u64, i: int| #![trigger after[c][i]] in_stock(after, c, i) && c != class implies in_stock(
        stock,
        c,
        i,
    ) && after[c][i] == stock[c][i] && before.memory().contains_key(
        buffer_info(after[c][i]).id,
    ) by {
        assert(stock[c][i] == after[c][i]);
    }
    assert forall|c: u64, i: int| #![trigger after[c][i]] in_stock(after, c, i) && c == class implies after[c][i]
        == added[i] && !before.memory().contains_key(buffer_info(after[c][i]).id) by {
        assert(bucket[i] == added[i]);
    }
    assert(stocked(after, gpu, usage));
    assert forall|id: nat| #[trigger] stores(after, id) implies stores(stock, id)
        || !before.memory().contains_key(id) by {
        let (c, i) = choose|c: u64, i: int|
            #![trigger after[c][i]]
            in_stock(after, c, i) && buffer_info(after[c][i]).id == id;
        if c != class {
            assert(buffer_info(stock[c][i]).id == id);
        }
    }
    assert forall|id: nat| #[trigger] stores(stock, id) implies stores(after, id) by {
        let (c, i) = choose|c: u64, i: int|
            #![trigger stock[c][i]]
            in_stock(stock, c, i) && buffer_info(stock[c][i]).id == id;
        assert(in_stock(after, c, i) && after[c][i] == stock[c][i]);
    }
    assert forall|i: int| 0 <= i < more.len() implies !stores(
        after,
        buffer_info(#[trigger] more[i]).id,
    ) by {
        let id = buffer_info(more[i]).id;
        assert(more[i] == added[bucket.len() + i]);
        if stores(after, id) {
            let (c, j) = choose|c: u64, j: int|
                #![trigger after[c][j]]
                in_stock(after, c, j) && buffer_info(after[c][j]).id == id;
            if c == class {
                assert(after[c][j] == added[j]);
            }
        }
    }
}

/// A stock stays in order as long as its own buffers stay unmapped and keep their size.
pub proof fn lemma_stock_unaffected(
    stock: Map<u64, Seq<wgpu::Buffer>>,
    before: Gpu,
    after: Gpu,
    usage: BufferUse,
)
    requires
        stocked(stock, before, usage),
        after.same_device(before),
        forall|id: nat| #[trigger]
            stores(stock, id) ==> after.memory().contains_key(id) && after.memory()[id].len()
                == before.memory()[id].len() && (after.mapped().contains_key(id)
                ==> before.mapped().contains_key(id)),
    ensures
        stocked(stock, after, usage),
{
    assert forall|class: u64, i: int| #![trigger stock[class][i]] in_stock(stock, class, i) implies after.usable(
        stock[class][i],
    ) by {
        assert(stores(stock, buffer_info(stock[class][i]).id));
    }
}

// ── Laws of stocks ───────────────────────────────────────────────────────────

proof fn lemma_count_in_same(
    a: Map<u64, Seq<wgpu::Buffer>>,
    b: Map<u64, Seq<wgpu::Buffer>>,
    classes: Set<u64>,
)
    requires
        forall|class: u64| #[trigger] classes.contains(class) ==> a[class] == b[class],
    ensures
        count_in(a, classes) == count_in(b, classes),
    decreases classes.len(),
{
    if classes.finite() && classes.len() > 0 {
        lemma_count_in_same(a, b, classes.remove(classes.choose()));
    }
}

/// Replacing one class changes the count by the difference.
proof fn lemma_count_insert(
    stock: Map<u64, Seq<wgpu::Buffer>>,
    class: u64,
    bucket: Seq<wgpu::Buffer>,
)
    requires
        stock.dom().finite(),
    ensures
        count(stock.insert(class, bucket)) + kept(stock, class).len() == count(stock) + bucket.len(),
{
    let after = stock.insert(class, bucket);
    let others = stock.dom().remove(class);
    assert(after.dom().remove(class) =~= others);
    lemma_count_in(after, after.dom(), class);
    lemma_count_in_same(after, stock, others);
    if stock.contains_key(class) {
        lemma_count_in(stock, stock.dom(), class);
    } else {
        assert(others =~= stock.dom());
    }
}

/// A buffer that was given back to a class with room is the next one to be handed out, and then
/// the class is as it was; in between one more buffer is kept.
pub proof fn law_released_buffer_is_reused(
    stock: Map<u64, Seq<wgpu::Buffer>>,
    max_per_class: nat,
    buffer: wgpu::Buffer,
    byte_size: u64,
)
    requires
        stock.dom().finite(),
        buffer_info(buffer).size == size_class(byte_size as nat),
        kept(stock, size_class(byte_size as nat) as u64).len() < max_per_class,
    ensures
        ({
            let class = size_class(byte_size as nat) as u64;
            let released = after_release(stock, max_per_class, buffer);
            &&& kept(released, class).len() > 0
            &&& kept(released, class).last() == buffer
            &&& kept(after_reuse(released, class), class) == kept(stock, class)
            &&& count(released) == count(stock) + 1
            &&& count(after_reuse(released, class)) == count(stock)
        }),
{
    law_size_class_is_stable(byte_size as nat);
    let class = size_class(byte_size as nat) as u64;
    let bucket = kept(stock, class);
    let released = after_release(stock, max_per_class, buffer);
    lemma_count_insert(stock, class, bucket.push(buffer));
    assert(bucket.push(buffer).drop_last() =~= bucket);
    lemma_count_insert(released, class, kept(released, class).drop_last());
}

/// The `k`th size class.
spec fn nth_class(k: nat) -> nat
    decreases k,
{
    if k == 0 {
        64
    } else {
        2 * nth_class((k - 1) as nat)
    }
}

/// There are at most `k` size classes below the `k`th.
proof fn lemma_count_below(
    stock: Map<u64, Seq<wgpu::Buffer>>,
    max_per_class: nat,
    classes: Set<u64>,
    k: nat,
)
    requires
        classes.finite(),
        forall|class: u64| #[trigger]
            classes.contains(class) ==> stock[class].len() <= max_per_class && size_class(
                class as nat,
            ) == class && class < nth_class(k),
    ensures
        count_in(stock, classes) <= k * max_per_class,
        is_power_of_two(nth_class(k)),
    decreases k,
{
    lemma_end_classes();
    if k == 0 {
        assert forall|class: u64| !classes.contains(class) by {
            if classes.contains(class) {
                lemma_class_is_power(class as nat);
            }
        }
        assert(classes =~= Set::empty());
    } else {
        let top = nth_class((k - 1) as nat);
        lemma_count_below(stock, max_per_class, Set::empty(), (k - 1) as nat);
        assert((2 * top) / 2 == top);
        let others = if top <= u64::MAX {
            classes.remove(top as u64)
        } else {
            classes
        };
        assert forall|class: u64| #[trigger] others.contains(class) implies class < top by {
            lemma_class_is_power(class as nat);
            if class > top {
                lemma_powers_apart(top, class as nat);
            }
        }
        lemma_count_below(stock, max_per_class, others, (k - 1) as nat);
        if top <= u64::MAX && classes.contains(top as u64) {
            lemma_count_in(stock, classes, top as u64);
        } else {
            assert(others =~= classes);
        }
        assert(k * max_per_class == (k - 1) * max_per_class + max_per_class) by (nonlinear_arith);
    }
}

/// There are 58 size classes, so a pool keeps at most 58 times the maximum per class.
pub proof fn law_count_is_bounded(stock: Map<u64, Seq<wgpu::Buffer>>, max_per_class: nat)
    requires
        capped(stock, max_per_class),
    ensures
        count(stock) <= 58 * max_per_class,
{
    assert(nth_class(58) == 0x1_0000_0000_0000_0000) by {
        reveal_with_fuel(nth_class, 59);
    }
    lemma_count_below(stock, max_per_class, stock.dom(), 58);
}

/// A pool never keeps more than the maximum per class, and keeps each buffer under its own size: what
/// is given back to a full class is not kept, and neither is a buffer whose size is no class.
pub proof fn law_full_class_keeps_no_more(
    stock: Map<u64, Seq<wgpu::Buffer>>,
    max_per_class: nat,
    buffer: wgpu::Buffer,
)
    requires
        capped(stock, max_per_class),
        by_size(stock),
    ensures
        ({
            let released = after_release(stock, max_per_class, buffer);
            let class = buffer_info(buffer).size;
            &&& capped(released, max_per_class)
            &&& by_size(released)
            &&& kept(stock, class).len() == max_per_class ==> count(released) == count(stock)
            &&& size_class(class as nat) != class ==> released == stock
        }),
{
    let released = after_release(stock, max_per_class, buffer);
    let class = buffer_info(buffer).size;
    if size_class(class as nat) == class {
        lemma_count_insert(stock, class, kept(released, class));
        assert forall|c: u64, i: int| #![trigger released[c][i]] in_stock(released, c, i) implies buffer_info(
            released[c][i],
        ).size == c by {
            if !(c == class && i == kept(stock, class).len()) {
                assert(released[c][i] == stock[c][i]);
            }
        }
    }
}

/// Handing a buffer out of a stock whose buffers have the size of their class gives one of the size
/// that was asked for, or more, and leaves the stock so.
proof fn lemma_taken_by_size(stock: Map<u64, Seq<wgpu::Buffer>>, class: u64)
    requires
        by_size(stock),
        kept(stock, class).len() > 0,
    ensures
        buffer_info(kept(stock, class).last()).size == class,
        by_size(after_reuse(stock, class)),
{
    let after = after_reuse(stock, class);
    assert(in_stock(stock, class, stock[class].len() - 1));
    assert forall|c: u64, i: int| #![trigger after[c][i]] in_stock(after, c, i) implies buffer_info(
        after[c][i],
    ).size == c by {
        assert(after[c][i] == stock[c][i]);
    }
}

/// The buffers of one class, however they are held.
trait Bucket {
    /// The buffers, the next one to be handed out last.
    spec fn buffers(&self) -> Seq<wgpu::Buffer>;

    /// The number of buffers.
    fn size(&self) -> (n: usize)
        ensures
            n == self.buffers().len(),
    ;
}

impl Bucket for Vec<wgpu::Buffer> {
    spec fn buffers(&self) -> Seq<wgpu::Buffer> {
        self@
    }

    fn size(&self) -> (n: usize) {
        self.len()
    }
}

/// The stock that the buckets make up.
spec fn contents<B: Bucket>(buckets: Map<u64, B>) -> Map<u64, Seq<wgpu::Buffer>> {
    buckets.map_values(|bucket: B| bucket.buffers())
}

/// The number of buffers in all the buckets.
fn count_all<B: Bucket>(buckets: &HashMap<u64, B>) -> (n: usize)
    requires
        contents(buckets@).dom().finite(),
        count(contents(buckets@)) <= usize::MAX,
    ensures
        n == count(contents(buckets@)),
{
    let ghost stock = contents(buckets@);
    let mut n: usize = 0;
    let ghost mut left: Set<u64> = stock.dom();
    let keys = buckets.keys();
    let ghost all = keys.remaining();
    assert forall|c: u64| #[trigger] left.contains(c) implies exists|i: int|
        0 <= i < all.len() && *#[trigger] all[i] == c by {
        assert(all.unref().to_set().contains(c));
        let i = all.unref().index_of(c);
        assert(*all[i] == c);
    }
    assert forall|i: int| 0 <= i < all.len() implies left.contains(*#[trigger] all[i]) by {
        assert(all.unref().contains(all.unref()[i]));
    }
    for class in iter: keys
        invariant
            stock == contents(buckets@),
            iter.seq().no_duplicates(),
            iter.seq().unref().to_set() == buckets@.dom(),
            left.finite(),
            n + count_in(stock, left) == count(stock),
            count(stock) <= usize::MAX,
            forall|c: u64| #[trigger]
                left.contains(c) <==> exists|i: int|
                    iter.index() <= i < iter.seq().len() && *#[trigger] iter.seq()[i] == c,
    {
        let ghost at = iter.index();
        let ghost keys = iter.seq();
        assert(*keys[at] == *class);
        assert(left.contains(*class));
        assert(keys.unref().contains(keys.unref()[at]));
        assert(buckets@.contains_key(*class));
        proof {
            lemma_count_in(stock, left, *class);
        }
        if let Some(bucket) = buckets.get(class) {
            n = n + bucket.size();
        }
        proof {
            left = left.remove(*class);
        }
    }
    n
}

// ── Compute buffers ──────────────────────────────────────────────────────────

/// Reusable compute (storage) buffers, kept by size class.
///
/// [`BufferPool::acquire`] before each operation; [`BufferPool::release`] when the image or tensor
/// that held the buffer is given up.
pub struct BufferPool {
    buckets: HashMap<u64, Vec<wgpu::Buffer>>,
    max_per_class: usize,
}

impl View for BufferPool {
    type V = Map<u64, Seq<wgpu::Buffer>>;

    closed spec fn view(&self) -> Map<u64, Seq<wgpu::Buffer>> {
        contents(self.buckets@)
    }
}

impl BufferPool {
    /// The maximum number of unused buffers kept per size class.
    pub closed spec fn max_per_class(self) -> nat {
        self.max_per_class as nat
    }

    /// No class is kept beyond the maximum, and what is kept has the size of its class.
    pub open spec fn wf(self) -> bool {
        capped(self@, self.max_per_class()) && by_size(self@)
    }

    /// Creates a pool that keeps up to `max_per_class` unused buffers per size class.
    pub fn new(max_per_class: usize) -> (pool: Self)
        ensures
            pool.wf(),
            pool@ == Map::<u64, Seq<wgpu::Buffer>>::empty(),
            pool.max_per_class() == max_per_class,
    {
        let pool = BufferPool { buckets: HashMap::new(), max_per_class };
        assert(pool@ =~= Map::<u64, Seq<wgpu::Buffer>>::empty());
        pool
    }

    /// Acquires a buffer of the size class of `byte_size`: the one released last, or a new one
    /// where none is kept.
    pub fn acquire(&mut self, gpu: &mut Gpu, byte_size: u64) -> (buffer: wgpu::Buffer)
        requires
            old(self).wf(),
            byte_size <= MAX_CLASS,
            kept(old(self)@, size_class(byte_size as nat) as u64).len() == 0 ==> size_class(
                byte_size as nat,
            ) <= old(gpu).limits().max_buffer_size,
        ensures
            final(self).wf(),
            final(self).max_per_class() == old(self).max_per_class(),
            buffer_info(buffer).size == size_class(byte_size as nat),
            buffer_info(buffer).size >= byte_size,
            ({
                let class = size_class(byte_size as nat) as u64;
                let bucket = kept(old(self)@, class);
                if bucket.len() > 0 {
                    &&& buffer == bucket.last()
                    &&& final(self)@ == after_reuse(old(self)@, class)
                    &&& *final(gpu) == *old(gpu)
                } else {
                    &&& final(self)@ == old(self)@
                    &&& final(gpu).grown(*old(gpu), seq![buffer], class, compute_use())
                }
            }),
    {
        let class: u64 = class_of(byte_size);
        proof {
            lemma_class_covers(byte_size as nat);
            if kept(self@, class).len() > 0 {
                lemma_taken_by_size(self@, class);
            }
        }
        if let Some(mut bucket) = self.buckets.remove(&class) {
            let recycled = bucket.pop();
            self.buckets.insert(class, bucket);
            if let Some(buffer) = recycled {
                assert(self@ =~= old(self)@.insert(class, kept(old(self)@, class).drop_last()));
                return buffer;
            }
        }
        assert(self@ =~= old(self)@);
        let mut label = "pooled-compute-".to_owned();
        label.append(decimal_text(class).as_str());
        let buffer = create_buffer(
            gpu,
            label.as_str(),
            class,
            BufferUse { map_read: false, copy_src: true, copy_dst: true, storage: true, uniform: false },
        );
        assert(seq![buffer][0] == buffer);
        buffer
    }

    /// Releases a buffer back into the pool, which keeps it unless its class is full. A buffer whose
    /// size is no class, which the pool has not handed out, is dropped.
    pub fn release(&mut self, buffer: wgpu::Buffer)
        requires
            old(self).wf(),
        ensures
            final(self).wf(),
            final(self).max_per_class() == old(self).max_per_class(),
            final(self)@ == after_release(old(self)@, old(self).max_per_class(), buffer),
    {
        proof {
            law_full_class_keeps_no_more(self@, self.max_per_class(), buffer);
        }
        let class: u64 = size_of_buffer(&buffer);
        if !is_class(class) {
            return;
        }
        let mut bucket = match self.buckets.remove(&class) {
            Some(bucket) => bucket,
            None => Vec::new(),
        };
        if bucket.len() < self.max_per_class {
            bucket.push(buffer);
        }
        let ghost contents = bucket@;
        self.buckets.insert(class, bucket);
        assert(self@ =~= old(self)@.insert(class, contents));
    }

    /// Drops all buffers that are kept.
    pub fn clear(&mut self)
        requires
            old(self).wf(),
        ensures
            final(self).wf(),
            final(self)@ == Map::<u64, Seq<wgpu::Buffer>>::empty(),
            final(self).max_per_class() == old(self).max_per_class(),
    {
        self.buckets.clear();
        assert(self@ =~= Map::<u64, Seq<wgpu::Buffer>>::empty());
    }

    /// Returns the number of buffers that are kept.
    pub fn cached_count(&self) -> (n: usize)
        requires
            self.wf(),
            count(self@) <= usize::MAX,
        ensures
            n == count(self@),
    {
        count_all(&self.buckets)
    }
}

// ── Staging buffers ──────────────────────────────────────────────────────────

/// Creates a staging buffer.
fn create_staging(gpu: &mut Gpu, label: &str, size: u64) -> (buffer: wgpu::Buffer)
    requires
        size <= old(gpu).limits().max_buffer_size,
    ensures
        final(gpu).grown(*old(gpu), seq![buffer], size, staging_use()),
{
    let buffer = create_buffer(
        gpu,
        label,
        size,
        BufferUse { map_read: true, copy_src: false, copy_dst: true, storage: false, uniform: false },
    );
    assert(seq![buffer][0] == buffer);
    buffer
}

/// Mappable staging buffers of one size, created in advance.
struct StagingPool {
    buffers: Vec<wgpu::Buffer>,
    max_count: usize,
}

impl Bucket for StagingPool {
    spec fn buffers(&self) -> Seq<wgpu::Buffer> {
        self.buffers@
    }

    fn size(&self) -> (n: usize) {
        self.buffers.len()
    }
}

impl StagingPool {
    fn new(gpu: &mut Gpu, byte_size: u64, count: usize) -> (pool: Self)
        requires
            count > 0 ==> byte_size <= old(gpu).limits().max_buffer_size,
        ensures
            pool.max_count == count,
            pool.buffers@.len() == count,
            final(gpu).grown(*old(gpu), pool.buffers@, byte_size, staging_use()),
    {
        let mut buffers: Vec<wgpu::Buffer> = Vec::new();
        for i in 0..count
            invariant
                count > 0 ==> byte_size <= gpu.limits().max_buffer_size,
                buffers@.len() == i,
                gpu.grown(*old(gpu), buffers@, byte_size, staging_use()),
        {
            let ghost before = buffers@;
            let ghost gpu_before = *gpu;
            let mut label = "staging-".to_owned();
            label.append(decimal_text(byte_size).as_str());
            label.append("-");
            label.append(decimal_text(i as u64).as_str());
            let buffer = create_staging(gpu, label.as_str(), byte_size);
            buffers.push(buffer);
            proof {
                lemma_grown_twice(*old(gpu), gpu_before, *gpu, before, buffer, byte_size, staging_use());
            }
        }
        StagingPool { buffers, max_count: count }
    }

    fn try_acquire(&mut self) -> (buffer: Option<wgpu::Buffer>)
        ensures
            final(self).max_count == old(self).max_count,
            old(self).buffers@.len() == 0 ==> buffer is None && final(self).buffers@ == old(
                self,
            ).buffers@,
            old(self).buffers@.len() > 0 ==> buffer == Some(old(self).buffers@.last())
                && final(self).buffers@ == old(self).buffers@.drop_last(),
    {
        self.buffers.pop()
    }

    fn release(&mut self, buffer: wgpu::Buffer)
        ensures
            final(self).max_count == old(self).max_count,
            final(self).buffers@ == if old(self).buffers@.len() < old(self).max_count {
                old(self).buffers@.push(buffer)
            } else {
                old(self).buffers@
            },
    {
        if self.buffers.len() < self.max_count {
            self.buffers.push(buffer);
        }
    }
}

/// Creating some buffers and then one more is creating them all.
proof fn lemma_grown_twice(
    first: Gpu,
    second: Gpu,
    third: Gpu,
    added: Seq<wgpu::Buffer>,
    buffer: wgpu::Buffer,
    size: u64,
    usage: BufferUse,
)
    requires
        second.grown(first, added, size, usage),
        third.grown(second, seq![buffer], size, usage),
    ensures
        third.grown(first, added.push(buffer), size, usage),
{
    let all = added.push(buffer);
    assert(seq![buffer][0] == buffer);
    assert(all[added.len() as int] == buffer);
    assert forall|i: int| 0 <= i < added.len() implies #[trigger] all[i] == added[i] by {}
    assert forall|id: nat| #[trigger] third.memory().contains_key(id) implies first.memory().contains_key(
        id,
    ) || exists|i: int| 0 <= i < all.len() && buffer_info(#[trigger] all[i]).id == id by {
        if second.memory().contains_key(id) && !first.memory().contains_key(id) {
            let i = choose|i: int| 0 <= i < added.len() && buffer_info(#[trigger] added[i]).id == id;
            assert(all[i] == added[i]);
        } else if !second.memory().contains_key(id) {
            let i = choose|i: int|
                0 <= i < seq![buffer].len() && buffer_info(#[trigger] seq![buffer][i]).id == id;
            assert(buffer_info(all[added.len() as int]).id == id);
        }
    }
    assert forall|i: int, j: int| 0 <= i < j < all.len() implies buffer_info(#[trigger] all[i]).id
        != buffer_info(#[trigger] all[j]).id by {
        assert(second.memory().contains_key(buffer_info(added[i]).id));
    }
}

/// Staging buffers by size class. A class is stocked when it is first asked for.
pub struct StagingPoolMap {
    pools: HashMap<u64, StagingPool>,
    count_per_class: usize,
}

impl View for StagingPoolMap {
    type V = Map<u64, Seq<wgpu::Buffer>>;

    closed spec fn view(&self) -> Map<u64, Seq<wgpu::Buffer>> {
        contents(self.pools@)
    }
}

impl StagingPoolMap {
    /// The number of staging buffers that a class is stocked with, and kept at most.
    pub closed spec fn count_per_class(self) -> nat {
        self.count_per_class as nat
    }

    /// No class is kept beyond what it was stocked with, and what is kept has the size of its class.
    pub closed spec fn wf(self) -> bool {
        &&& capped(self@, self.count_per_class())
        &&& by_size(self@)
        &&& forall|class: u64| #[trigger]
            self.pools@.contains_key(class) ==> self.pools@[class].max_count
                == self.count_per_class
    }

    /// No class is kept beyond what it was stocked with, and what is kept has the size of its class.
    pub proof fn lemma_wf(self)
        requires
            self.wf(),
        ensures
            capped(self@, self.count_per_class()),
            by_size(self@),
    {
    }

    /// Creates a map that stocks each class with `count_per_class` staging buffers.
    pub fn new(count_per_class: usize) -> (pools: Self)
        ensures
            pools.wf(),
            pools@ == Map::<u64, Seq<wgpu::Buffer>>::empty(),
            pools.count_per_class() == count_per_class,
    {
        let pools = StagingPoolMap { pools: HashMap::new(), count_per_class };
        assert(pools@ =~= Map::<u64, Seq<wgpu::Buffer>>::empty());
        pools
    }

    /// Acquires a staging buffer of the size class of `byte_size`: one that is kept, or a new one
    /// where none is. A class that was never asked for is stocked on the way.
    pub fn acquire(&mut self, gpu: &mut Gpu, byte_size: u64) -> (buffer: wgpu::Buffer)
        requires
            old(self).wf(),
            byte_size <= MAX_CLASS,
            kept(old(self)@, size_class(byte_size as nat) as u64).len() == 0 ==> size_class(
                byte_size as nat,
            ) <= old(gpu).limits().max_buffer_size,
        ensures
            final(self).wf(),
            final(self).count_per_class() == old(self).count_per_class(),
            buffer_info(buffer).size == size_class(byte_size as nat),
            buffer_info(buffer).size >= byte_size,
            ({
                let class = size_class(byte_size as nat) as u64;
                let bucket = kept(old(self)@, class);
                if bucket.len() > 0 {
                    &&& buffer == bucket.last()
                    &&& final(self)@ == after_reuse(old(self)@, class)
                    &&& *final(gpu) == *old(gpu)
                } else if old(self)@.contains_key(class) {
                    &&& final(self)@ == old(self)@
                    &&& final(gpu).grown(*old(gpu), seq![buffer], class, staging_use())
                } else {
                    &&& kept(final(self)@, class).len() == old(self).count_per_class()
                    &&& final(self)@ == old(self)@.insert(class, kept(final(self)@, class))
                    &&& final(gpu).grown(
                        *old(gpu),
                        kept(final(self)@, class).push(buffer),
                        class,
                        staging_use(),
                    )
                }
            }),
    {
        let class: u64 = class_of(byte_size);
        proof {
            lemma_class_covers(byte_size as nat);
            if kept(self@, class).len() > 0 {
                lemma_taken_by_size(self@, class);
            }
        }
        if let Some(mut pool) = self.pools.remove(&class) {
            let recycled = pool.try_acquire();
            self.pools.insert(class, pool);
            if let Some(buffer) = recycled {
                assert(self@ =~= old(self)@.insert(class, kept(old(self)@, class).drop_last()));
                return buffer;
            }
            assert(self@ =~= old(self)@);
        } else {
            proof {
                law_size_class_is_stable(byte_size as nat);
            }
            let pool = StagingPool::new(gpu, class, self.count_per_class);
            let ghost stock = pool.buffers@;
            self.pools.insert(class, pool);
            assert(self@ =~= old(self)@.insert(class, stock));
            assert forall|c: u64, i: int| #![trigger self@[c][i]] in_stock(self@, c, i) implies buffer_info(
                self@[c][i],
            ).size == c by {
                if c == class {
                    assert(self@[c][i] == stock[i]);
                } else {
                    assert(self@[c][i] == old(self)@[c][i]);
                }
            }
        }
        let ghost stocked = *gpu;
        let mut label = "staging-overflow-".to_owned();
        label.append(decimal_text(class).as_str());
        let buffer = create_staging(gpu, label.as_str(), class);
        proof {
            assert(seq![buffer][0] == buffer);
            if !old(self)@.contains_key(class) {
                lemma_grown_twice(
                    *old(gpu),
                    stocked,
                    *gpu,
                    kept(self@, class),
                    buffer,
                    class,
                    staging_use(),
                );
            }
        }
        buffer
    }

    /// Releases a staging buffer, which has to be unmapped, back into the stock of its size,
    /// unless that is full; one of a size that was never asked for is dropped.
    pub fn release(&mut self, buffer: wgpu::Buffer)
        requires
            old(self).wf(),
        ensures
            final(self).wf(),
            final(self).count_per_class() == old(self).count_per_class(),
            ({
                let class = buffer_info(buffer).size;
                let bucket = kept(old(self)@, class);
                if old(self)@.contains_key(class) && bucket.len() < old(self).count_per_class() {
                    final(self)@ == old(self)@.insert(class, bucket.push(buffer))
                } else {
                    final(self)@ == old(self)@
                }
            }),
    {
        let class: u64 = size_of_buffer(&buffer);
        if let Some(mut pool) = self.pools.remove(&class) {
            pool.release(buffer);
            let ghost stock = pool.buffers@;
            self.pools.insert(class, pool);
            assert(self@ =~= old(self)@.insert(class, stock));
            assert(stock == kept(old(self)@, class) ==> self@ =~= old(self)@);
            assert forall|c: u64, i: int| #![trigger self@[c][i]] in_stock(self@, c, i) implies buffer_info(
                self@[c][i],
            ).size == c by {
                if !(c == class && i == kept(old(self)@, class).len()) {
                    assert(self@[c][i] == old(self)@[c][i]);
                }
            }
        } else {
            assert(self@ =~= old(self)@);
        }
    }

    /// Returns the number of staging buffers that are kept.
    pub fn cached_count(&self) -> (n: usize)
        requires
            self.wf(),
            count(self@) <= usize::MAX,
        ensures
            n == count(self@),
    {
        count_all(&self.pools)
    }
}

} // verus!
