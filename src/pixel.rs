use vstd::prelude::*;

verus! {

/// How the bytes of one channel are interpreted.
#[derive(Clone, Copy, Debug, PartialEq, Eq, Structural)]
pub enum PixelType {
    /// Unsigned 32-bit integer.
    UINT,
    /// 16-bit floating point.
    HALF,
    /// 32-bit floating point.
    FLOAT,
}

impl PixelType {
    /// Storage size of one value of this type, in bytes.
    pub open spec fn size_spec(self) -> nat {
        match self {
            PixelType::UINT => 4,
            PixelType::HALF => 2,
            PixelType::FLOAT => 4,
        }
    }

    pub fn byte_size(self) -> (r: usize)
        ensures
            r == self.size_spec(),
    {
        match self {
            PixelType::UINT => 4,
            PixelType::HALF => 2,
            PixelType::FLOAT => 4,
        }
    }
}

/// Byte offset of constituent `k` of an aggregate made of `types`, laid out
/// one after another: the sum of the sizes of the constituents before it.
pub open spec fn offset_of(types: Seq<PixelType>, k: int) -> nat
    decreases k,
{
    if k <= 0 {
        0
    } else {
        offset_of(types, k - 1) + types[k - 1].size_spec()
    }
}

/// `n` channels of type `t`.
pub open spec fn repeated(t: PixelType, n: nat) -> Seq<PixelType> {
    Seq::new(n, |j: int| t)
}

/// Every scalar takes at most four bytes.
pub proof fn lemma_offset_bound(types: Seq<PixelType>, k: int)
    ensures
        offset_of(types, k) <= 4 * (if k < 0 { 0 } else { k }),
    decreases k,
{
    if k > 0 {
        lemma_offset_bound(types, k - 1);
    }
}

/// Offsets never decrease: a later constituent starts no earlier than where
/// an earlier one ends.
pub proof fn lemma_offset_monotone(types: Seq<PixelType>, j: int, k: int)
    requires
        0 <= j <= k,
    ensures
        offset_of(types, j) <= offset_of(types, k),
    decreases k - j,
{
    if j < k {
        lemma_offset_monotone(types, j, k - 1);
    }
}

/// The run-time description of an aggregate pixel type: its constituent
/// scalar types in memory order.
pub struct PixelLayout {
    types: Vec<PixelType>,
}

impl View for PixelLayout {
    type V = Seq<PixelType>;

    closed spec fn view(&self) -> Seq<PixelType> {
        self.types@
    }
}

impl PixelLayout {
    /// A supported aggregate has between one and four constituents.
    pub open spec fn wf(&self) -> bool {
        1 <= self@.len() <= 4
    }

    /// Size of the whole aggregate in bytes.
    pub open spec fn size_spec(&self) -> nat {
        offset_of(self@, self@.len() as int)
    }

    /// A single scalar.
    pub fn scalar(t: PixelType) -> (r: PixelLayout)
        ensures
            r.wf(),
            r@ == seq![t],
    {
        let r = PixelLayout { types: vec![t] };
        assert(r@ =~= seq![t]);
        r
    }

    /// A group of two scalars.
    pub fn tuple2(a: PixelType, b: PixelType) -> (r: PixelLayout)
        ensures
            r.wf(),
            r@ == seq![a, b],
    {
        let r = PixelLayout { types: vec![a, b] };
        assert(r@ =~= seq![a, b]);
        r
    }

    /// A group of three scalars.
    pub fn tuple3(a: PixelType, b: PixelType, c: PixelType) -> (r: PixelLayout)
        ensures
            r.wf(),
            r@ == seq![a, b, c],
    {
        let r = PixelLayout { types: vec![a, b, c] };
        assert(r@ =~= seq![a, b, c]);
        r
    }

    /// A group of four scalars.
    pub fn tuple4(a: PixelType, b: PixelType, c: PixelType, d: PixelType) -> (r: PixelLayout)
        ensures
            r.wf(),
            r@ == seq![a, b, c, d],
    {
        let r = PixelLayout { types: vec![a, b, c, d] };
        assert(r@ =~= seq![a, b, c, d]);
        r
    }

    /// A fixed-size array of `n` scalars of one type.
    pub fn array(t: PixelType, n: usize) -> (r: PixelLayout)
        requires
            1 <= n <= 4,
        ensures
            r.wf(),
            r@ == repeated(t, n as nat),
    {
        let mut types: Vec<PixelType> = Vec::new();
        let mut i: usize = 0;
        while i < n
            invariant
                i <= n,
                types@ == Seq::new(i as nat, |j: int| t),
            decreases n - i,
        {
            types.push(t);
            i = i + 1;
            assert(types@ =~= Seq::new(i as nat, |j: int| t));
        }
        assert(types@ =~= repeated(t, n as nat));
        PixelLayout { types }
    }

    /// Number of channels in the aggregate.
    pub fn channel_count(&self) -> (r: usize)
        ensures
            r == self@.len(),
    {
        self.types.len()
    }

    /// Byte offset at which constituent `k` starts (`k` may be the count,
    /// which gives the size of the aggregate).
    pub fn offset(&self, k: usize) -> (r: usize)
        requires
            self.wf(),
            k <= self@.len(),
        ensures
            r == offset_of(self@, k as int),
    {
        let mut off: usize = 0;
        let mut j: usize = 0;
        while j < k
            invariant
                self.wf(),
                j <= k <= self@.len(),
                off == offset_of(self@, j as int),
            decreases k - j,
        {
            proof {
                lemma_offset_bound(self@, j as int + 1);
            }
            off = off + self.types[j].byte_size();
            j = j + 1;
        }
        off
    }

    /// Size of the whole aggregate in bytes.
    pub fn byte_size(&self) -> (r: usize)
        requires
            self.wf(),
        ensures
            r == self.size_spec(),
            r <= 16,
    {
        proof {
            lemma_offset_bound(self@, self@.len() as int);
        }
        self.offset(self.types.len())
    }

    /// The type and byte offset of channel `i`.
    pub fn channel(&self, i: usize) -> (r: (PixelType, usize))
        requires
            self.wf(),
            i < self@.len(),
        ensures
            r.0 == self@[i as int],
            r.1 == offset_of(self@, i as int),
    {
        (self.types[i], self.offset(i))
    }

    /// The type and byte offset of every channel, in order.
    pub fn channels(&self) -> (r: Vec<(PixelType, usize)>)
        requires
            self.wf(),
        ensures
            r@.len() == self@.len(),
            forall|i: int|
                0 <= i < r@.len() ==> #[trigger] r@[i] == (self@[i], offset_of(self@, i) as usize),
    {
        let mut r: Vec<(PixelType, usize)> = Vec::new();
        let mut i: usize = 0;
        while i < self.types.len()
            invariant
                self.wf(),
                i <= self@.len(),
                r@.len() == i,
                forall|j: int|
                    0 <= j < i ==> #[trigger] r@[j] == (self@[j], offset_of(self@, j) as usize),
            decreases self@.len() - i,
        {
            let c = self.channel(i);
            r.push(c);
            i = i + 1;
        }
        r
    }
}

/// Scalar types that a decoder may write directly as the value of one
/// channel at one pixel.
pub trait ChannelData: Copy {
    /// The channel type that values of this type are stored as.
    spec fn tag() -> PixelType;

    fn pixel_type() -> (r: PixelType)
        ensures
            r == Self::tag(),
    ;

    /// The type's memory size is that of its channel type, so that the
    /// decoder never writes past a value.
    proof fn lemma_size()
        ensures
            vstd::layout::size_of::<Self>() == Self::tag().size_spec(),
    ;
}

impl ChannelData for u32 {
    open spec fn tag() -> PixelType {
        PixelType::UINT
    }

    fn pixel_type() -> (r: PixelType) {
        PixelType::UINT
    }

    proof fn lemma_size() {
        broadcast use vstd::layout::layout_of_primitives;

    }
}

/// Types that hold the values of a fixed group of channels at one pixel,
/// one scalar after another.
pub trait PixelStruct {
    /// The constituent channel types, in memory order.
    spec fn spec_types() -> Seq<PixelType>;

    fn layout() -> (r: PixelLayout)
        ensures
            r.wf(),
            r@ == Self::spec_types(),
    ;
}

impl<T: ChannelData> PixelStruct for T {
    open spec fn spec_types() -> Seq<PixelType> {
        seq![T::tag()]
    }

    fn layout() -> (r: PixelLayout) {
        PixelLayout::scalar(T::pixel_type())
    }
}

impl<A: ChannelData, B: ChannelData> PixelStruct for (A, B) {
    open spec fn spec_types() -> Seq<PixelType> {
        seq![A::tag(), B::tag()]
    }

    fn layout() -> (r: PixelLayout) {
        PixelLayout::tuple2(A::pixel_type(), B::pixel_type())
    }
}

impl<A: ChannelData, B: ChannelData, C: ChannelData> PixelStruct for (A, B, C) {
    open spec fn spec_types() -> Seq<PixelType> {
        seq![A::tag(), B::tag(), C::tag()]
    }

    fn layout() -> (r: PixelLayout) {
        PixelLayout::tuple3(A::pixel_type(), B::pixel_type(), C::pixel_type())
    }
}

impl<A: ChannelData, B: ChannelData, C: ChannelData, D: ChannelData> PixelStruct for (A, B, C, D) {
    open spec fn spec_types() -> Seq<PixelType> {
        seq![A::tag(), B::tag(), C::tag(), D::tag()]
    }

    fn layout() -> (r: PixelLayout) {
        PixelLayout::tuple4(A::pixel_type(), B::pixel_type(), C::pixel_type(), D::pixel_type())
    }
}

impl<T: ChannelData> PixelStruct for [T; 1] {
    open spec fn spec_types() -> Seq<PixelType> {
        repeated(T::tag(), 1)
    }

    fn layout() -> (r: PixelLayout) {
        PixelLayout::array(T::pixel_type(), 1)
    }
}

impl<T: ChannelData> PixelStruct for [T; 2] {
    open spec fn spec_types() -> Seq<PixelType> {
        repeated(T::tag(), 2)
    }

    fn layout() -> (r: PixelLayout) {
        PixelLayout::array(T::pixel_type(), 2)
    }
}

impl<T: ChannelData> PixelStruct for [T; 3] {
    open spec fn spec_types() -> Seq<PixelType> {
        repeated(T::tag(), 3)
    }

    fn layout() -> (r: PixelLayout) {
        PixelLayout::array(T::pixel_type(), 3)
    }
}

impl<T: ChannelData> PixelStruct for [T; 4] {
    open spec fn spec_types() -> Seq<PixelType> {
        repeated(T::tag(), 4)
    }

    fn layout() -> (r: PixelLayout) {
        PixelLayout::array(T::pixel_type(), 4)
    }
}

/// Number of channels in the aggregate type `T`.
pub fn channel_count<T: PixelStruct>() -> (r: usize)
    ensures
        r == T::spec_types().len(),
{
    T::layout().channel_count()
}

/// Type and byte offset of channel `i` of the aggregate type `T`.
pub fn channel<T: PixelStruct>(i: usize) -> (r: (PixelType, usize))
    requires
        i < T::spec_types().len(),
    ensures
        r.0 == T::spec_types()[i as int],
        r.1 == offset_of(T::spec_types(), i as int),
{
    T::layout().channel(i)
}

/// Type and byte offset of every channel of the aggregate type `T`, in order.
pub fn channels<T: PixelStruct>() -> (r: Vec<(PixelType, usize)>)
    ensures
        r@.len() == T::spec_types().len(),
        forall|i: int|
            0 <= i < r@.len() ==> #[trigger] r@[i] == (T::spec_types()[i], offset_of(
                T::spec_types(),
                i,
            ) as usize),
{
    T::layout().channels()
}

/// The channel type of each scalar storage type is fixed: `u32` is stored
/// as `UINT`; and each channel type has a fixed size: four bytes for `UINT`
/// and `FLOAT`, two for `HALF`.
pub proof fn lemma_scalar_tags()
    ensures
        <u32 as ChannelData>::tag() == PixelType::UINT,
        vstd::layout::size_of::<u32>() == PixelType::UINT.size_spec(),
        PixelType::UINT.size_spec() == 4,
        PixelType::HALF.size_spec() == 2,
        PixelType::FLOAT.size_spec() == 4,
{
    <u32 as ChannelData>::lemma_size();
}

/// In any aggregate, the first channel starts at byte 0, and each later one
/// starts where the one before it ends; so offsets never decrease.
pub proof fn lemma_layout_offsets(types: Seq<PixelType>)
    ensures
        offset_of(types, 0) == 0,
        forall|k: int|
            1 <= k <= types.len() ==> #[trigger] offset_of(types, k) == offset_of(types, k - 1)
                + types[k - 1].size_spec(),
        forall|j: int, k: int|
            0 <= j <= k ==> #[trigger] offset_of(types, j) <= #[trigger] offset_of(types, k),
{
    assert forall|j: int, k: int| 0 <= j <= k implies #[trigger] offset_of(types, j)
        <= #[trigger] offset_of(types, k) by {
        lemma_offset_monotone(types, j, k);
    }
}

/// Each supported aggregate shape has as many channels as its arity: a
/// scalar one, a tuple of n scalars n, an array of n scalars n; an array's
/// channels all have the element's type.
pub proof fn lemma_shape_arity<A: ChannelData, B: ChannelData, C: ChannelData, D: ChannelData>()
    ensures
        <A as PixelStruct>::spec_types().len() == 1,
        <(A, B) as PixelStruct>::spec_types().len() == 2,
        <(A, B, C) as PixelStruct>::spec_types().len() == 3,
        <(A, B, C, D) as PixelStruct>::spec_types().len() == 4,
        <[A; 1] as PixelStruct>::spec_types().len() == 1,
        <[A; 2] as PixelStruct>::spec_types().len() == 2,
        <[A; 3] as PixelStruct>::spec_types().len() == 3,
        <[A; 4] as PixelStruct>::spec_types().len() == 4,
        <(A, B, C, D) as PixelStruct>::spec_types() == seq![A::tag(), B::tag(), C::tag(), D::tag()],
        forall|i: int| 0 <= i < 4 ==> #[trigger] <[A; 4] as PixelStruct>::spec_types()[i] == A::tag(),
{
}

/// An array of `n` scalars of one type puts element `i` at `i` times the
/// element's size.
pub proof fn lemma_array_offsets(t: PixelType, n: nat)
    ensures
        forall|i: int| 0 <= i <= n ==> #[trigger] offset_of(repeated(t, n), i) == i * t.size_spec(),
{
    assert forall|i: int| 0 <= i <= n implies #[trigger] offset_of(repeated(t, n), i) == i
        * t.size_spec() by {
        lemma_array_offset(t, n, i);
    }
}

proof fn lemma_array_offset(t: PixelType, n: nat, i: int)
    requires
        0 <= i <= n,
    ensures
        offset_of(repeated(t, n), i) == i * t.size_spec(),
    decreases i,
{
    if i > 0 {
        lemma_array_offset(t, n, i - 1);
        assert(i * t.size_spec() == (i - 1) * t.size_spec() + t.size_spec()) by (nonlinear_arith);
    }
}

} // verus!
