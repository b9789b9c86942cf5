//! Uniform layout builder: offsets, alignment and total size of a material's
//! parameter block, computed from its declared field types.

use vstd::pervasive::unreached;
use vstd::prelude::*;

verus! {

/// Every uniform buffer is padded to a multiple of this many bytes.
pub const BUFFER_ALIGNMENT: usize = 16;

/// Semantic type a material parameter is declared with.
///
/// The packing rules cover `Float`, `Vec3`, `Vec4` and `Color`. A parameter
/// table that declares any other type is rejected.
#[derive(Clone, Copy, Debug, PartialEq, Eq, Structural)]
pub enum FieldType {
    Float,
    Vec2,
    Vec3,
    Vec4,
    Color,
    Mat4,
}

/// Alignment and payload size of one field, in bytes.
#[derive(Clone, Copy, Debug, PartialEq, Eq, Structural)]
pub struct Packing {
    pub alignment: usize,
    pub size: usize,
}

impl FieldType {
    /// The packing rule of a type, `None` where the type has none.
    ///
    /// A scalar takes 4 bytes at a 4-byte boundary. The vector types start at
    /// a 16-byte boundary; `Vec4` and `Color` fill all 16 bytes, `Vec3` has a
    /// 12-byte payload and so never straddles a 16-byte boundary.
    pub open spec fn spec_packing(self) -> Option<Packing> {
        match self {
            FieldType::Float => Some(Packing { alignment: 4, size: 4 }),
            FieldType::Vec3 => Some(Packing { alignment: 16, size: 12 }),
            FieldType::Vec4 => Some(Packing { alignment: 16, size: 16 }),
            FieldType::Color => Some(Packing { alignment: 16, size: 16 }),
            FieldType::Vec2 => None,
            FieldType::Mat4 => None,
        }
    }

    /// Whether the type has a packing rule.
    pub open spec fn is_supported(self) -> bool {
        self.spec_packing() is Some
    }

    /// Alignment in bytes; meaningful for supported types.
    pub open spec fn alignment(self) -> nat {
        self.spec_packing()->0.alignment as nat
    }

    /// Payload size in bytes; meaningful for supported types.
    pub open spec fn size(self) -> nat {
        self.spec_packing()->0.size as nat
    }

    /// The packing rule of the type, `None` where the type has none.
    #[verifier::when_used_as_spec(spec_packing)]
    pub fn packing(self) -> (rule: Option<Packing>)
        ensures
            rule == self.spec_packing(),
    {
        match self {
            FieldType::Float => Some(Packing { alignment: 4, size: 4 }),
            FieldType::Vec3 => Some(Packing { alignment: 16, size: 12 }),
            FieldType::Vec4 => Some(Packing { alignment: 16, size: 16 }),
            FieldType::Color => Some(Packing { alignment: 16, size: 16 }),
            FieldType::Vec2 => None,
            FieldType::Mat4 => None,
        }
    }
}

/// The least multiple of `boundary` that is not below `n`.
pub open spec fn round_up(n: nat, boundary: nat) -> nat
    recommends
        boundary > 0,
{
    if n % boundary == 0 {
        n
    } else {
        (n + boundary - n % boundary) as nat
    }
}

/// Rounding up gives a multiple of the boundary, not below the number and
/// less than one boundary above it.
pub proof fn lemma_round_up(n: nat, boundary: nat)
    requires
        boundary > 0,
    ensures
        round_up(n, boundary) % boundary == 0,
        n <= round_up(n, boundary) < n + boundary,
{
    let r = n % boundary;
    if r != 0 {
        let up = (n + boundary - r) as int;
        assert(up % (boundary as int) == 0) by (nonlinear_arith)
            requires
                boundary > 0,
                r == n % boundary,
                up == n + boundary - r,
        ;
    }
}

/// The least multiple of `boundary` that is not below `n`.
fn round_up_to(n: usize, boundary: usize) -> (up: usize)
    requires
        boundary > 0,
        round_up(n as nat, boundary as nat) <= usize::MAX,
    ensures
        up == round_up(n as nat, boundary as nat),
{
    let r = n % boundary;
    if r == 0 {
        n
    } else {
        proof {
            lemma_round_up(n as nat, boundary as nat);
        }
        n + (boundary - r)
    }
}

/// One row of a material's parameter table: a name and the declared type.
#[derive(Debug, PartialEq, Eq)]
pub struct FieldDescriptor {
    pub name: String,
    pub ty: FieldType,
}

/// A field placed in a uniform buffer.
#[derive(Debug, PartialEq, Eq)]
pub struct UniformField {
    pub name: String,
    pub ty: FieldType,
    pub offset: usize,
    pub size: usize,
}

/// What a placed field is, as plain mathematical values.
pub struct FieldSpec {
    pub name: Seq<char>,
    pub ty: FieldType,
    pub offset: nat,
    pub size: nat,
}

impl View for UniformField {
    type V = FieldSpec;

    open spec fn view(&self) -> FieldSpec {
        FieldSpec {
            name: self.name@,
            ty: self.ty,
            offset: self.offset as nat,
            size: self.size as nat,
        }
    }
}

/// What a layout is: its fields in declaration order and the buffer size.
pub struct LayoutSpec {
    pub fields: Seq<FieldSpec>,
    pub size: nat,
}

impl LayoutSpec {
    /// Every field has a supported type, the size of that type, and an offset
    /// aligned for it.
    pub open spec fn fields_aligned(self) -> bool {
        forall|i: int|
            0 <= i < self.fields.len() ==> {
                let f = #[trigger] self.fields[i];
                &&& f.ty.is_supported()
                &&& f.size == f.ty.size()
                &&& f.offset % f.ty.alignment() == 0
            }
    }

    /// Fields lie one after another without overlap.
    pub open spec fn fields_disjoint(self) -> bool {
        forall|i: int, j: int|
            0 <= i < j < self.fields.len() ==> (#[trigger] self.fields[i]).offset
                + self.fields[i].size <= (#[trigger] self.fields[j]).offset
    }

    /// Every field lies inside the buffer.
    pub open spec fn fields_in_bounds(self) -> bool {
        forall|i: int|
            0 <= i < self.fields.len() ==> (#[trigger] self.fields[i]).offset
                + self.fields[i].size <= self.size
    }

    /// The invariant of a layout: aligned, disjoint fields inside a buffer
    /// whose size is a multiple of [`BUFFER_ALIGNMENT`].
    pub open spec fn wf(self) -> bool {
        &&& self.fields_aligned()
        &&& self.fields_disjoint()
        &&& self.fields_in_bounds()
        &&& self.size % (BUFFER_ALIGNMENT as nat) == 0
    }
}

/// The GPU-visible layout of a material's parameter block.
#[derive(Debug, PartialEq, Eq)]
pub struct UniformLayout {
    fields: Vec<UniformField>,
    size: usize,
}

impl UniformLayout {
    #[verifier::type_invariant]
    spec fn inv(self) -> bool {
        self@.wf()
    }
}

impl View for UniformLayout {
    type V = LayoutSpec;

    closed spec fn view(&self) -> LayoutSpec {
        LayoutSpec {
            fields: Seq::new(self.fields@.len(), |i: int| self.fields@[i]@),
            size: self.size as nat,
        }
    }
}

/// Why a layout could not be computed, written or read.
#[derive(Clone, Copy, Debug, PartialEq, Eq, Structural)]
pub enum LayoutError {
    /// The field at `index` declares a type without a packing rule.
    UnsupportedType { index: usize },
    /// The number of values differs from the number of fields.
    CountMismatch { expected: usize, found: usize },
    /// The value at `index` has another type than the field at `index`.
    TypeMismatch { index: usize },
    /// A buffer does not have the size of the layout.
    BufferSizeMismatch { expected: usize, found: usize },
    /// The layout has no field at `index`.
    NoSuchField { index: usize },
}

/// The declared types of a parameter table, in order.
pub open spec fn declared_types(table: Seq<FieldDescriptor>) -> Seq<FieldType> {
    Seq::new(table.len(), |i: int| table[i].ty)
}

/// Every type of the sequence has a packing rule.
pub open spec fn all_supported(types: Seq<FieldType>) -> bool {
    forall|i: int| 0 <= i < types.len() ==> (#[trigger] types[i]).is_supported()
}

/// `index` is the first position of `types` that holds an unsupported type.
pub open spec fn first_unsupported(types: Seq<FieldType>, index: int) -> bool {
    &&& 0 <= index < types.len()
    &&& !types[index].is_supported()
    &&& forall|j: int| 0 <= j < index ==> (#[trigger] types[j]).is_supported()
}

/// The end of the first `n` fields when each is placed at the first offset
/// past its predecessor that its alignment allows.
pub open spec fn packed_end(types: Seq<FieldType>, n: nat) -> nat
    decreases n,
{
    if n == 0 {
        0
    } else {
        round_up(packed_end(types, (n - 1) as nat), types[n - 1].alignment()) + types[n
            - 1].size()
    }
}

/// The offset of field `i`: the end of the fields before it, rounded up to
/// the alignment of its type.
pub open spec fn field_offset(types: Seq<FieldType>, i: int) -> nat {
    round_up(packed_end(types, i as nat), types[i].alignment())
}

/// The size of the buffer: the end of the last field, rounded up to
/// [`BUFFER_ALIGNMENT`].
pub open spec fn buffer_size(types: Seq<FieldType>) -> nat {
    round_up(packed_end(types, types.len()), BUFFER_ALIGNMENT as nat)
}

/// The layout of a parameter table of supported types.
pub open spec fn layout_of(table: Seq<FieldDescriptor>) -> LayoutSpec {
    let types = declared_types(table);
    LayoutSpec {
        fields: Seq::new(
            table.len(),
            |i: int|
                FieldSpec {
                    name: table[i].name@,
                    ty: table[i].ty,
                    offset: field_offset(types, i),
                    size: table[i].ty.size(),
                },
        ),
        size: buffer_size(types),
    }
}

/// The packed end never shrinks as fields are added, and each field ends
/// where the packing of the fields up to it ends.
pub proof fn lemma_packed_end_monotonic(types: Seq<FieldType>, m: nat, n: nat)
    requires
        m <= n <= types.len(),
        all_supported(types),
    ensures
        packed_end(types, m) <= packed_end(types, n),
    decreases n,
{
    if m < n {
        lemma_packed_end_monotonic(types, m, (n - 1) as nat);
        let prev = packed_end(types, (n - 1) as nat);
        assert(types[n - 1].is_supported());
        lemma_round_up(prev, types[n - 1].alignment());
    }
}

/// A buffer takes at most 32 bytes for each field and 16 more.
pub proof fn lemma_buffer_size_bound(types: Seq<FieldType>)
    requires
        all_supported(types),
    ensures
        buffer_size(types) <= 32 * types.len() + 16,
{
    lemma_packed_end_bound(types, types.len());
    lemma_round_up(packed_end(types, types.len()), BUFFER_ALIGNMENT as nat);
}

/// The first `n` fields end within 32 bytes for each of them.
proof fn lemma_packed_end_bound(types: Seq<FieldType>, n: nat)
    requires
        n <= types.len(),
        all_supported(types),
    ensures
        packed_end(types, n) <= 32 * n,
    decreases n,
{
    if n > 0 {
        lemma_packed_end_bound(types, (n - 1) as nat);
        assert(types[n - 1].is_supported());
        lemma_round_up(packed_end(types, (n - 1) as nat), types[n - 1].alignment());
    }
}

/// For every table of supported types the computed offsets are aligned for
/// their types, the fields do not overlap, and the buffer size is a multiple
/// of [`BUFFER_ALIGNMENT`] that holds them all.
pub proof fn lemma_layout_of_wf(table: Seq<FieldDescriptor>)
    requires
        all_supported(declared_types(table)),
    ensures
        layout_of(table).wf(),
{
    let types = declared_types(table);
    let layout = layout_of(table);
    assert forall|i: int| 0 <= i < layout.fields.len() implies {
        let f = #[trigger] layout.fields[i];
        &&& f.ty.is_supported()
        &&& f.size == f.ty.size()
        &&& f.offset % f.ty.alignment() == 0
    } by {
        assert(types[i].is_supported());
        lemma_round_up(packed_end(types, i as nat), types[i].alignment());
    }
    assert forall|i: int, j: int| 0 <= i < j < layout.fields.len() implies (
    #[trigger] layout.fields[i]).offset + layout.fields[i].size <= (
    #[trigger] layout.fields[j]).offset by {
        assert(types[j].is_supported());
        lemma_packed_end_monotonic(types, (i + 1) as nat, j as nat);
        lemma_round_up(packed_end(types, j as nat), types[j].alignment());
    }
    assert forall|i: int| 0 <= i < layout.fields.len() implies (
    #[trigger] layout.fields[i]).offset + layout.fields[i].size <= layout.size by {
        lemma_packed_end_monotonic(types, (i + 1) as nat, types.len());
        lemma_round_up(packed_end(types, types.len()), BUFFER_ALIGNMENT as nat);
    }
    lemma_round_up(packed_end(types, types.len()), BUFFER_ALIGNMENT as nat);
}

/// The index of the first field whose type has no packing rule.
fn find_unsupported(table: &[FieldDescriptor]) -> (found: Option<usize>)
    ensures
        match found {
            Some(index) => first_unsupported(declared_types(table@), index as int),
            None => all_supported(declared_types(table@)),
        },
{
    let mut i: usize = 0;
    while i < table.len()
        invariant
            i <= table.len(),
            forall|j: int| 0 <= j < i ==> (#[trigger] declared_types(table@)[j]).is_supported(),
        decreases table.len() - i,
    {
        if table[i].ty.packing().is_none() {
            return Some(i);
        }
        i += 1;
    }
    None
}

/// Computes the layout of a parameter table.
///
/// Fields are placed in declaration order, each at the first offset past its
/// predecessor that its alignment allows, and the total size is padded to a
/// multiple of [`BUFFER_ALIGNMENT`]. A table that declares an unsupported
/// type is rejected with the index of the first such field.
///
/// The size of the buffer has to fit a machine word, which by
/// [`lemma_buffer_size_bound`] it does for every table of less than
/// `usize::MAX / 32` fields.
pub fn compute_layout(table: &[FieldDescriptor]) -> (result: Result<UniformLayout, LayoutError>)
    requires
        all_supported(declared_types(table@)) ==> buffer_size(declared_types(table@))
            <= usize::MAX,
    ensures
        match result {
            Ok(layout) => {
                &&& all_supported(declared_types(table@))
                &&& layout@ == layout_of(table@)
                &&& layout@.wf()
            },
            Err(LayoutError::UnsupportedType { index }) => first_unsupported(
                declared_types(table@),
                index as int,
            ),
            Err(_) => false,
        },
{
    if let Some(index) = find_unsupported(table) {
        return Err(LayoutError::UnsupportedType { index });
    }
    let ghost types = declared_types(table@);
    let mut placed: Vec<UniformField> = Vec::new();
    let mut cursor: usize = 0;
    let mut i: usize = 0;
    while i < table.len()
        invariant
            i <= table.len(),
            types == declared_types(table@),
            all_supported(types),
            buffer_size(types) <= usize::MAX,
            cursor == packed_end(types, i as nat),
            placed@.len() == i,
            forall|j: int| 0 <= j < i ==> (#[trigger] placed@[j])@ == layout_of(table@).fields[j],
        decreases table.len() - i,
    {
        let desc = &table[i];
        let ty = desc.ty;
        proof {
            assert(types[i as int] == ty);
            assert(types[i as int].is_supported());
            lemma_round_up(cursor as nat, ty.alignment());
            lemma_packed_end_monotonic(types, (i + 1) as nat, types.len());
            lemma_round_up(packed_end(types, types.len()), BUFFER_ALIGNMENT as nat);
        }
        let rule = match ty.packing() {
            Some(rule) => rule,
            None => unreached(),
        };
        let offset = round_up_to(cursor, rule.alignment);
        placed.push(UniformField { name: desc.name.clone(), ty, offset, size: rule.size });
        cursor = offset + rule.size;
        i += 1;
    }
    proof {
        lemma_layout_of_wf(table@);
    }
    let size = round_up_to(cursor, BUFFER_ALIGNMENT);
    let layout = UniformLayout { fields: placed, size };
    proof {
        assert(layout@.fields =~= layout_of(table@).fields);
    }
    Ok(layout)
}

/// The value of one field. Each component is the bit pattern of a 32-bit
/// float, so that a value is written and read back bit for bit.
#[derive(Clone, Copy, Debug, PartialEq, Eq, Structural)]
pub enum FieldValue {
    Float(u32),
    Vec3(u32, u32, u32),
    Vec4(u32, u32, u32, u32),
    Color(u32, u32, u32, u32),
}

/// The four bytes of a word, least significant first.
pub open spec fn word_bytes(w: u32) -> Seq<u8> {
    seq![
        (w % 256) as u8,
        (w / 256 % 256) as u8,
        (w / 65536 % 256) as u8,
        (w / 16777216) as u8,
    ]
}

/// The word whose bytes, least significant first, start at `at`.
pub open spec fn word_at(bytes: Seq<u8>, at: int) -> u32 {
    (bytes[at] + 256 * bytes[at + 1] + 65536 * bytes[at + 2] + 16777216 * bytes[at + 3]) as u32
}

impl FieldValue {
    /// The type of field that this value fills.
    pub open spec fn spec_field_type(self) -> FieldType {
        match self {
            FieldValue::Float(..) => FieldType::Float,
            FieldValue::Vec3(..) => FieldType::Vec3,
            FieldValue::Vec4(..) => FieldType::Vec4,
            FieldValue::Color(..) => FieldType::Color,
        }
    }

    /// The type of field that this value fills.
    #[verifier::when_used_as_spec(spec_field_type)]
    pub fn field_type(self) -> (ty: FieldType)
        ensures
            ty == self.spec_field_type(),
    {
        match self {
            FieldValue::Float(..) => FieldType::Float,
            FieldValue::Vec3(..) => FieldType::Vec3,
            FieldValue::Vec4(..) => FieldType::Vec4,
            FieldValue::Color(..) => FieldType::Color,
        }
    }

    /// The components in order.
    pub open spec fn words(self) -> Seq<u32> {
        match self {
            FieldValue::Float(x) => seq![x],
            FieldValue::Vec3(x, y, z) => seq![x, y, z],
            FieldValue::Vec4(x, y, z, w) => seq![x, y, z, w],
            FieldValue::Color(r, g, b, a) => seq![r, g, b, a],
        }
    }

    /// The bytes of the value as they stand in a buffer: the components in
    /// order, each least significant byte first.
    pub open spec fn bytes(self) -> Seq<u8> {
        Seq::new(self.words().len() * 4, |k: int| word_bytes(self.words()[k / 4])[k % 4])
    }
}

/// The value of type `ty` whose bytes start at `at`.
pub open spec fn value_at(ty: FieldType, bytes: Seq<u8>, at: int) -> FieldValue {
    match ty {
        FieldType::Vec3 => FieldValue::Vec3(
            word_at(bytes, at),
            word_at(bytes, at + 4),
            word_at(bytes, at + 8),
        ),
        FieldType::Vec4 => FieldValue::Vec4(
            word_at(bytes, at),
            word_at(bytes, at + 4),
            word_at(bytes, at + 8),
            word_at(bytes, at + 12),
        ),
        FieldType::Color => FieldValue::Color(
            word_at(bytes, at),
            word_at(bytes, at + 4),
            word_at(bytes, at + 8),
            word_at(bytes, at + 12),
        ),
        _ => FieldValue::Float(word_at(bytes, at)),
    }
}

/// There is one value for each field, of the field's type.
pub open spec fn values_match(layout: LayoutSpec, values: Seq<FieldValue>) -> bool {
    &&& values.len() == layout.fields.len()
    &&& forall|i: int|
        0 <= i < values.len() ==> (#[trigger] values[i]).spec_field_type() == layout.fields[i].ty
}

/// `index` is the first position at which a value has another type than the
/// field.
pub open spec fn first_mismatch(layout: LayoutSpec, values: Seq<FieldValue>, index: int) -> bool {
    &&& 0 <= index < values.len()
    &&& values[index].spec_field_type() != layout.fields[index].ty
    &&& forall|j: int|
        0 <= j < index ==> (#[trigger] values[j]).spec_field_type() == layout.fields[j].ty
}

/// Field `i` is one of the first `n` fields and byte `p` of the buffer
/// belongs to it.
pub open spec fn covers(layout: LayoutSpec, n: int, p: int, i: int) -> bool {
    &&& 0 <= i < n
    &&& layout.fields[i].offset <= p < layout.fields[i].offset + layout.fields[i].size
}

/// Byte `p` of a buffer that holds the first `n` values: the byte of the
/// value whose field `p` belongs to, and zero in the padding.
pub open spec fn byte_at(layout: LayoutSpec, values: Seq<FieldValue>, n: int, p: int) -> u8 {
    if exists|i: int| covers(layout, n, p, i) {
        let i = choose|i: int| covers(layout, n, p, i);
        values[i].bytes()[p - layout.fields[i].offset]
    } else {
        0
    }
}

/// The buffer of a layout filled with values: each value's bytes at the
/// offset of its field, zero everywhere else.
pub open spec fn serialized(layout: LayoutSpec, values: Seq<FieldValue>) -> Seq<u8> {
    Seq::new(layout.size, |p: int| byte_at(layout, values, layout.fields.len() as int, p))
}

/// In a well-formed layout at most one field covers a byte.
pub proof fn lemma_cover_unique(layout: LayoutSpec, n: int, p: int, i: int, j: int)
    requires
        layout.wf(),
        n <= layout.fields.len(),
        covers(layout, n, p, i),
        covers(layout, n, p, j),
    ensures
        i == j,
{
    if i < j {
        assert(layout.fields[i].offset + layout.fields[i].size <= layout.fields[j].offset);
    } else if j < i {
        assert(layout.fields[j].offset + layout.fields[j].size <= layout.fields[i].offset);
    }
}

/// Inside field `i` the buffer holds the bytes of value `i`.
pub proof fn lemma_byte_in_field(layout: LayoutSpec, values: Seq<FieldValue>, n: int, i: int, k: int)
    requires
        layout.wf(),
        n <= layout.fields.len(),
        0 <= i < n,
        0 <= k < layout.fields[i].size,
    ensures
        byte_at(layout, values, n, layout.fields[i].offset + k) == values[i].bytes()[k],
{
    let p = layout.fields[i].offset + k;
    assert(covers(layout, n, p, i));
    let c = choose|c: int| covers(layout, n, p, c);
    lemma_cover_unique(layout, n, p, i, c);
}

/// Reading a word back gives the word that was written.
pub proof fn lemma_word_round_trip(w: u32, bytes: Seq<u8>, at: int)
    requires
        0 <= at,
        at + 4 <= bytes.len(),
        forall|k: int| 0 <= k < 4 ==> bytes[at + k] == #[trigger] word_bytes(w)[k],
    ensures
        word_at(bytes, at) == w,
{
    assert(bytes[at + 0] == word_bytes(w)[0]);
    assert(bytes[at + 1] == word_bytes(w)[1]);
    assert(bytes[at + 2] == word_bytes(w)[2]);
    assert(bytes[at + 3] == word_bytes(w)[3]);
}

/// Reading field `i` at its offset in a serialized buffer gives back value
/// `i`, bit for bit.
pub proof fn lemma_read_after_serialize(layout: LayoutSpec, values: Seq<FieldValue>, i: int)
    requires
        layout.wf(),
        values_match(layout, values),
        0 <= i < layout.fields.len(),
    ensures
        value_at(layout.fields[i].ty, serialized(layout, values), layout.fields[i].offset as int)
            == values[i],
{
    let f = layout.fields[i];
    let v = values[i];
    let buffer = serialized(layout, values);
    let n = layout.fields.len() as int;
    let at = f.offset as int;
    assert(f.ty.is_supported() && f.size == f.ty.size() && f.offset + f.size <= layout.size);
    assert(v.spec_field_type() == f.ty);
    assert forall|c: int| 0 <= c < v.words().len() implies word_at(buffer, at + 4 * c)
        == #[trigger] v.words()[c] by {
        assert forall|k: int| 0 <= k < 4 implies buffer[at + 4 * c + k] == #[trigger] word_bytes(
            v.words()[c],
        )[k] by {
            lemma_byte_in_field(layout, values, n, i, 4 * c + k);
            assert((4 * c + k) / 4 == c && (4 * c + k) % 4 == k);
        }
        lemma_word_round_trip(v.words()[c], buffer, at + 4 * c);
    }
    match v {
        FieldValue::Float(..) => {
            assert(v.words()[0] == word_at(buffer, at + 4 * 0));
        },
        FieldValue::Vec3(..) => {
            assert(v.words()[0] == word_at(buffer, at + 4 * 0));
            assert(v.words()[1] == word_at(buffer, at + 4 * 1));
            assert(v.words()[2] == word_at(buffer, at + 4 * 2));
        },
        FieldValue::Vec4(..) => {
            assert(v.words()[0] == word_at(buffer, at + 4 * 0));
            assert(v.words()[1] == word_at(buffer, at + 4 * 1));
            assert(v.words()[2] == word_at(buffer, at + 4 * 2));
            assert(v.words()[3] == word_at(buffer, at + 4 * 3));
        },
        FieldValue::Color(..) => {
            assert(v.words()[0] == word_at(buffer, at + 4 * 0));
            assert(v.words()[1] == word_at(buffer, at + 4 * 1));
            assert(v.words()[2] == word_at(buffer, at + 4 * 2));
            assert(v.words()[3] == word_at(buffer, at + 4 * 3));
        },
    }
}

/// Writes the four bytes of `w` at `at`, least significant first.
fn store_word(buffer: &mut Vec<u8>, at: usize, w: u32)
    requires
        at + 4 <= old(buffer).len(),
    ensures
        final(buffer)@.len() == old(buffer)@.len(),
        forall|p: int|
            0 <= p < old(buffer)@.len() ==> #[trigger] final(buffer)@[p] == if at <= p < at + 4 {
                word_bytes(w)[p - at]
            } else {
                old(buffer)@[p]
            },
{
    buffer[at] = (w % 256) as u8;
    buffer[at + 1] = (w / 256 % 256) as u8;
    buffer[at + 2] = (w / 65536 % 256) as u8;
    buffer[at + 3] = (w / 16777216) as u8;
}

/// Writes the bytes of `value` at `at`.
fn store_value(buffer: &mut Vec<u8>, at: usize, value: FieldValue)
    requires
        at + value.spec_field_type().size() <= old(buffer).len(),
    ensures
        final(buffer)@.len() == old(buffer)@.len(),
        forall|p: int|
            0 <= p < old(buffer)@.len() ==> #[trigger] final(buffer)@[p] == if at <= p < at
                + value.spec_field_type().size() {
                value.bytes()[p - at]
            } else {
                old(buffer)@[p]
            },
{
    match value {
        FieldValue::Float(x) => {
            store_word(buffer, at, x);
        },
        FieldValue::Vec3(x, y, z) => {
            store_word(buffer, at, x);
            store_word(buffer, at + 4, y);
            store_word(buffer, at + 8, z);
        },
        FieldValue::Vec4(x, y, z, w) => {
            store_word(buffer, at, x);
            store_word(buffer, at + 4, y);
            store_word(buffer, at + 8, z);
            store_word(buffer, at + 12, w);
        },
        FieldValue::Color(r, g, b, a) => {
            store_word(buffer, at, r);
            store_word(buffer, at + 4, g);
            store_word(buffer, at + 8, b);
            store_word(buffer, at + 12, a);
        },
    }
}

/// The index of the first value whose type differs from its field's.
fn find_mismatch(layout: &UniformLayout, values: &[FieldValue]) -> (found: Option<usize>)
    requires
        values@.len() == layout@.fields.len(),
    ensures
        match found {
            Some(index) => first_mismatch(layout@, values@, index as int),
            None => values_match(layout@, values@),
        },
{
    let mut i: usize = 0;
    while i < values.len()
        invariant
            i <= values.len(),
            values@.len() == layout@.fields.len(),
            forall|j: int|
                0 <= j < i ==> (#[trigger] values@[j]).spec_field_type() == layout@.fields[j].ty,
        decreases values.len() - i,
    {
        if values[i].field_type() != layout.fields[i].ty {
            return Some(i);
        }
        i += 1;
    }
    None
}

impl UniformLayout {
    /// Checks that there is one value for each field, of the field's type.
    ///
    /// Fails where the number of values differs from the number of fields,
    /// and where a value has another type than its field, with the index of
    /// the first such value.
    pub fn check_values(&self, values: &[FieldValue]) -> (result: Result<(), LayoutError>)
        ensures
            self@.wf(),
            match result {
                Ok(()) => values_match(self@, values@),
                Err(LayoutError::CountMismatch { expected, found }) => {
                    &&& values@.len() != self@.fields.len()
                    &&& expected == self@.fields.len()
                    &&& found == values@.len()
                },
                Err(LayoutError::TypeMismatch { index }) => {
                    &&& values@.len() == self@.fields.len()
                    &&& first_mismatch(self@, values@, index as int)
                },
                Err(_) => false,
            },
    {
        proof {
            use_type_invariant(self);
        }
        if values.len() != self.fields.len() {
            return Err(
                LayoutError::CountMismatch { expected: self.fields.len(), found: values.len() },
            );
        }
        if let Some(index) = find_mismatch(self, values) {
            return Err(LayoutError::TypeMismatch { index });
        }
        Ok(())
    }

    /// The fields in declaration order.
    pub fn fields(&self) -> (fields: &[UniformField])
        ensures
            fields@.len() == self@.fields.len(),
            forall|i: int| 0 <= i < fields@.len() ==> (#[trigger] fields@[i])@ == self@.fields[i],
    {
        self.fields.as_slice()
    }

    /// The size of the buffer in bytes.
    pub fn size(&self) -> (size: usize)
        ensures
            size == self@.size,
    {
        self.size
    }
}

/// Fills a buffer of the layout's size with values that match the layout:
/// the bytes of each value at the offset of its field, zero in the padding.
pub(crate) fn encode(layout: &UniformLayout, values: &[FieldValue]) -> (buffer: Vec<u8>)
    requires
        values_match(layout@, values@),
    ensures
        buffer@ == serialized(layout@, values@),
{
    proof {
        use_type_invariant(layout);
    }
    let mut buffer: Vec<u8> = vec![0u8; layout.size];
    let mut i: usize = 0;
    while i < values.len()
        invariant
            i <= values.len(),
            layout@.wf(),
            values_match(layout@, values@),
            buffer@.len() == layout@.size,
            forall|p: int|
                0 <= p < buffer@.len() ==> #[trigger] buffer@[p] == byte_at(
                    layout@,
                    values@,
                    i as int,
                    p,
                ),
        decreases values.len() - i,
    {
        let field = &layout.fields[i];
        proof {
            assert(layout@.fields[i as int] == field@);
            assert(values@[i as int].spec_field_type() == field.ty);
        }
        store_value(&mut buffer, field.offset, values[i]);
        proof {
            assert forall|p: int| 0 <= p < buffer@.len() implies #[trigger] buffer@[p] == byte_at(
                layout@,
                values@,
                i + 1,
                p,
            ) by {
                lemma_byte_at_step(layout@, values@, i as int, p);
            }
        }
        i += 1;
    }
    assert(buffer@ =~= serialized(layout@, values@));
    buffer
}

/// Fills a buffer of the layout's size with the values: the bytes of each
/// value at the offset of its field, zero in the padding.
///
/// Fails where the number of values differs from the number of fields, and
/// where a value has another type than its field, with the index of the
/// first such value.
pub fn serialize(layout: &UniformLayout, values: &[FieldValue]) -> (result: Result<
    Vec<u8>,
    LayoutError,
>)
    ensures
        match result {
            Ok(buffer) => {
                &&& values_match(layout@, values@)
                &&& buffer@ == serialized(layout@, values@)
            },
            Err(LayoutError::CountMismatch { expected, found }) => {
                &&& values@.len() != layout@.fields.len()
                &&& expected == layout@.fields.len()
                &&& found == values@.len()
            },
            Err(LayoutError::TypeMismatch { index }) => {
                &&& values@.len() == layout@.fields.len()
                &&& first_mismatch(layout@, values@, index as int)
            },
            Err(_) => false,
        },
{
    match layout.check_values(values) {
        Ok(()) => Ok(encode(layout, values)),
        Err(error) => Err(error),
    }
}

/// How the bytes of a buffer change when value `n` is written after the
/// first `n`: the bytes of field `n` become those of the value, every other
/// byte stays.
pub proof fn lemma_byte_at_step(layout: LayoutSpec, values: Seq<FieldValue>, n: int, p: int)
    requires
        layout.wf(),
        0 <= n < layout.fields.len(),
    ensures
        byte_at(layout, values, n + 1, p) == if layout.fields[n].offset <= p
            < layout.fields[n].offset + layout.fields[n].size {
            values[n].bytes()[p - layout.fields[n].offset]
        } else {
            byte_at(layout, values, n, p)
        },
{
    let m = n + 1;
    if covers(layout, m, p, n) {
        let c = choose|c: int| covers(layout, m, p, c);
        lemma_cover_unique(layout, m, p, n, c);
    } else if exists|c: int| covers(layout, n, p, c) {
        let c = choose|c: int| covers(layout, n, p, c);
        assert(covers(layout, m, p, c));
        let d = choose|d: int| covers(layout, m, p, d);
        lemma_cover_unique(layout, m, p, c, d);
    } else {
        if exists|d: int| covers(layout, m, p, d) {
            let d = choose|d: int| covers(layout, m, p, d);
            assert(covers(layout, n, p, d));
        }
    }
}

/// Reads the word whose bytes, least significant first, start at `at`.
fn load_word(buffer: &[u8], at: usize) -> (w: u32)
    requires
        at + 4 <= buffer@.len(),
    ensures
        w == word_at(buffer@, at as int),
{
    let b0 = buffer[at] as u32;
    let b1 = buffer[at + 1] as u32;
    let b2 = buffer[at + 2] as u32;
    let b3 = buffer[at + 3] as u32;
    b0 + 256 * b1 + 65536 * b2 + 16777216 * b3
}

/// Reads the value of field `index` from a buffer of the layout's size.
///
/// Fails where the layout has no such field, and where the buffer has
/// another size than the layout.
pub fn read_field(layout: &UniformLayout, buffer: &[u8], index: usize) -> (result: Result<
    FieldValue,
    LayoutError,
>)
    ensures
        match result {
            Ok(value) => {
                &&& index < layout@.fields.len()
                &&& buffer@.len() == layout@.size
                &&& value == value_at(
                    layout@.fields[index as int].ty,
                    buffer@,
                    layout@.fields[index as int].offset as int,
                )
            },
            Err(LayoutError::NoSuchField { index: at }) => {
                &&& index >= layout@.fields.len()
                &&& at == index
            },
            Err(LayoutError::BufferSizeMismatch { expected, found }) => {
                &&& index < layout@.fields.len()
                &&& buffer@.len() != layout@.size
                &&& expected == layout@.size
                &&& found == buffer@.len()
            },
            Err(_) => false,
        },
{
    proof {
        use_type_invariant(layout);
    }
    if index >= layout.fields.len() {
        return Err(LayoutError::NoSuchField { index });
    }
    if buffer.len() != layout.size {
        return Err(LayoutError::BufferSizeMismatch { expected: layout.size, found: buffer.len() });
    }
    let field = &layout.fields[index];
    let at = field.offset;
    proof {
        assert(layout@.fields[index as int] == field@);
        assert(field@.ty.is_supported());
    }
    let value = match field.ty {
        FieldType::Vec3 => FieldValue::Vec3(
            load_word(buffer, at),
            load_word(buffer, at + 4),
            load_word(buffer, at + 8),
        ),
        FieldType::Vec4 => FieldValue::Vec4(
            load_word(buffer, at),
            load_word(buffer, at + 4),
            load_word(buffer, at + 8),
            load_word(buffer, at + 12),
        ),
        FieldType::Color => FieldValue::Color(
            load_word(buffer, at),
            load_word(buffer, at + 4),
            load_word(buffer, at + 8),
            load_word(buffer, at + 12),
        ),
        _ => FieldValue::Float(load_word(buffer, at)),
    };
    Ok(value)
}

} // verus!
