//! Auxiliary data: the values that shaders read besides LED positions.
//!
//! A value is empty, one scalar, or an array of one to four dimensions in
//! row-major order. Scalars are 32-bit IEEE-754 numbers and are held here by
//! their bit patterns, so that the library moves and lays them out without
//! doing arithmetic on them.
//!
//! The GPU byte layout of a value is: the size of each dimension as a
//! big-endian `u32`, in order, then the payload words as they lie in memory.
//! A scalar has no prefix and is written big-endian.

pub mod manager;

use crate::bytes::{
    be_bytes, lemma_word_round_trip, lemma_words_bytes_layout, lemma_words_round_trip,
    lemma_zero_words_bytes, push_all, push_be_bytes, word_of, words_as_native_bytes, words_bytes,
    words_of, ByteOrder,
};
use vstd::prelude::*;

verus! {

/// The shape of value that a shader slot expects, or that a value has.
#[derive(Debug, Clone, Copy, PartialEq, Eq, Hash, Structural)]
pub enum AuxiliaryDataTypeConsumer {
    Empty,
    F32,
    F32Vec,
    F32Vec2,
    F32Vec3,
    F32Vec4,
}

/// Why a value could not be built.
#[derive(Debug, Clone, Copy, PartialEq, Eq, Structural)]
pub enum AuxDataError {
    /// The number of values is not the product of the dimensions, or a size
    /// does not fit in 32 bits.
    IncorrectDimensions,
}

/// The product of the dimension sizes; 1 for no dimension.
pub open spec fn product(dims: Seq<u32>) -> nat
    decreases dims.len(),
{
    if dims.len() == 0 {
        1
    } else {
        product(dims.drop_last()) * (dims.last() as nat)
    }
}

/// The product of one to four dimension sizes, written out.
pub proof fn lemma_product_unfold(dims: Seq<u32>)
    ensures
        dims.len() == 0 ==> product(dims) == 1,
        dims.len() == 1 ==> product(dims) == dims[0],
        dims.len() == 2 ==> product(dims) == dims[0] * dims[1],
        dims.len() == 3 ==> product(dims) == dims[0] * dims[1] * dims[2],
        dims.len() == 4 ==> product(dims) == dims[0] * dims[1] * dims[2] * dims[3],
{
    let d1 = dims.drop_last();
    let d2 = d1.drop_last();
    let d3 = d2.drop_last();
    let d4 = d3.drop_last();
    if dims.len() == 1 {
        assert(product(d1) == 1);
        lemma_product_step(dims);
        lemma_one_times(dims[0] as nat);
    } else if dims.len() == 2 {
        assert(product(d2) == 1);
        lemma_product_step(d1);
        lemma_product_step(dims);
        lemma_one_times(dims[0] as nat);
    } else if dims.len() == 3 {
        assert(product(d3) == 1);
        lemma_product_step(d2);
        lemma_product_step(d1);
        lemma_product_step(dims);
        lemma_one_times(dims[0] as nat);
    } else if dims.len() == 4 {
        assert(product(d4) == 1);
        lemma_product_step(d3);
        lemma_product_step(d2);
        lemma_product_step(d1);
        lemma_product_step(dims);
        lemma_one_times(dims[0] as nat);
    }
}

/// The product of a sequence is the product of all but its last size, times
/// the last.
proof fn lemma_product_step(dims: Seq<u32>)
    requires
        dims.len() > 0,
    ensures
        product(dims) == product(dims.drop_last()) * (dims.last() as nat),
{
}

/// One times a number is the number.
proof fn lemma_one_times(x: nat)
    ensures
        1 * x == x,
{
}

/// What a value is, apart from how it is stored: its shape, the size of each
/// dimension, and its scalars (as bit patterns) in row-major order.
#[verifier::ext_equal]
pub struct AuxValue {
    pub kind: AuxiliaryDataTypeConsumer,
    pub dims: Seq<u32>,
    pub values: Seq<u32>,
}

impl AuxiliaryDataTypeConsumer {
    /// The number of dimensions of the shape.
    pub open spec fn rank(self) -> nat {
        match self {
            AuxiliaryDataTypeConsumer::Empty => 0,
            AuxiliaryDataTypeConsumer::F32 => 0,
            AuxiliaryDataTypeConsumer::F32Vec => 1,
            AuxiliaryDataTypeConsumer::F32Vec2 => 2,
            AuxiliaryDataTypeConsumer::F32Vec3 => 3,
            AuxiliaryDataTypeConsumer::F32Vec4 => 4,
        }
    }

    /// Bytes per scalar of the shape.
    pub open spec fn spec_mem_size(self) -> u64 {
        match self {
            AuxiliaryDataTypeConsumer::Empty => 0,
            _ => 4,
        }
    }

    /// Length in bytes of the stand-in buffer of the shape.
    pub open spec fn empty_buffer_len(self) -> nat {
        match self {
            AuxiliaryDataTypeConsumer::Empty => 0,
            _ => 4 * self.rank() + 4,
        }
    }

    /// The stand-in buffer of the shape: every dimension zero, then one zero
    /// scalar. All of its bytes are zero.
    pub open spec fn spec_empty_buffer(self) -> Seq<u8> {
        Seq::new(self.empty_buffer_len(), |i: int| 0u8)
    }

    /// The value a new auxiliary of this shape starts with: a zero scalar, or
    /// an array whose dimensions are all zero.
    pub open spec fn spec_default_value(self) -> AuxValue {
        AuxValue {
            kind: self,
            dims: Seq::new(self.rank(), |i: int| 0u32),
            values: if self == AuxiliaryDataTypeConsumer::F32 {
                seq![0u32]
            } else {
                Seq::<u32>::empty()
            },
        }
    }

    /// Bytes per scalar: none for `Empty`, four for every other shape.
    pub fn mem_size(&self) -> (size: u64)
        ensures
            size == self.spec_mem_size(),
    {
        match self {
            AuxiliaryDataTypeConsumer::Empty => 0,
            AuxiliaryDataTypeConsumer::F32 => 4,
            AuxiliaryDataTypeConsumer::F32Vec => 4,
            AuxiliaryDataTypeConsumer::F32Vec2 => 4,
            AuxiliaryDataTypeConsumer::F32Vec3 => 4,
            AuxiliaryDataTypeConsumer::F32Vec4 => 4,
        }
    }

    /// The number of dimensions of the shape.
    pub fn dimensions(&self) -> (n: usize)
        ensures
            n == self.rank(),
    {
        match self {
            AuxiliaryDataTypeConsumer::Empty => 0,
            AuxiliaryDataTypeConsumer::F32 => 0,
            AuxiliaryDataTypeConsumer::F32Vec => 1,
            AuxiliaryDataTypeConsumer::F32Vec2 => 2,
            AuxiliaryDataTypeConsumer::F32Vec3 => 3,
            AuxiliaryDataTypeConsumer::F32Vec4 => 4,
        }
    }

    /// The bytes bound in place of an auxiliary that is unmapped, missing or
    /// of another shape: a zero prefix per dimension and one zero scalar.
    pub fn empty_buffer(&self) -> (bytes: Vec<u8>)
        ensures
            bytes@ == self.spec_empty_buffer(),
    {
        let mut bytes: Vec<u8> = Vec::new();
        match self {
            AuxiliaryDataTypeConsumer::Empty => {},
            AuxiliaryDataTypeConsumer::F32 => {
                push_be_bytes(&mut bytes, 0);
            },
            _ => {
                let rank = self.dimensions();
                let mut i: usize = 0;
                while i < rank
                    invariant
                        i <= rank <= 4,
                        bytes@ == Seq::new(4 * i as nat, |j: int| 0u8),
                    decreases rank - i,
                {
                    push_be_bytes(&mut bytes, 0);
                    assert(bytes@ =~= Seq::new(4 * (i + 1) as nat, |j: int| 0u8));
                    i += 1;
                }
                let mut zero: Vec<u32> = Vec::new();
                zero.push(0);
                let payload = words_as_native_bytes(&zero);
                proof {
                    lemma_zero_words_bytes(zero@, ByteOrder::Little);
                    lemma_zero_words_bytes(zero@, ByteOrder::Big);
                }
                push_all(&mut bytes, &payload);
            },
        }
        assert(bytes@ =~= self.spec_empty_buffer());
        bytes
    }

    /// The name of the shape.
    pub fn name(&self) -> (text: String)
        ensures
            text@ == self.spec_name(),
    {
        match self {
            AuxiliaryDataTypeConsumer::Empty => "Empty".to_string(),
            AuxiliaryDataTypeConsumer::F32 => "F32".to_string(),
            AuxiliaryDataTypeConsumer::F32Vec => "F32Vec".to_string(),
            AuxiliaryDataTypeConsumer::F32Vec2 => "F32Vec2".to_string(),
            AuxiliaryDataTypeConsumer::F32Vec3 => "F32Vec3".to_string(),
            AuxiliaryDataTypeConsumer::F32Vec4 => "F32Vec4".to_string(),
        }
    }

    /// The name of the shape, as text.
    pub open spec fn spec_name(self) -> Seq<char> {
        match self {
            AuxiliaryDataTypeConsumer::Empty => "Empty"@,
            AuxiliaryDataTypeConsumer::F32 => "F32"@,
            AuxiliaryDataTypeConsumer::F32Vec => "F32Vec"@,
            AuxiliaryDataTypeConsumer::F32Vec2 => "F32Vec2"@,
            AuxiliaryDataTypeConsumer::F32Vec3 => "F32Vec3"@,
            AuxiliaryDataTypeConsumer::F32Vec4 => "F32Vec4"@,
        }
    }

    /// Every shape, in declaration order.
    pub open spec fn spec_all() -> Seq<AuxiliaryDataTypeConsumer> {
        seq![
            AuxiliaryDataTypeConsumer::Empty,
            AuxiliaryDataTypeConsumer::F32,
            AuxiliaryDataTypeConsumer::F32Vec,
            AuxiliaryDataTypeConsumer::F32Vec2,
            AuxiliaryDataTypeConsumer::F32Vec3,
            AuxiliaryDataTypeConsumer::F32Vec4,
        ]
    }

    /// Every shape, in declaration order.
    pub fn all() -> (shapes: Vec<AuxiliaryDataTypeConsumer>)
        ensures
            shapes@ == Self::spec_all(),
            forall|k: AuxiliaryDataTypeConsumer| shapes@.contains(k),
    {
        let mut shapes: Vec<AuxiliaryDataTypeConsumer> = Vec::new();
        shapes.push(AuxiliaryDataTypeConsumer::Empty);
        shapes.push(AuxiliaryDataTypeConsumer::F32);
        shapes.push(AuxiliaryDataTypeConsumer::F32Vec);
        shapes.push(AuxiliaryDataTypeConsumer::F32Vec2);
        shapes.push(AuxiliaryDataTypeConsumer::F32Vec3);
        shapes.push(AuxiliaryDataTypeConsumer::F32Vec4);
        assert(shapes@ =~= Self::spec_all());
        assert forall|k: AuxiliaryDataTypeConsumer| shapes@.contains(k) by {
            let at: int = match k {
                AuxiliaryDataTypeConsumer::Empty => 0,
                AuxiliaryDataTypeConsumer::F32 => 1,
                AuxiliaryDataTypeConsumer::F32Vec => 2,
                AuxiliaryDataTypeConsumer::F32Vec2 => 3,
                AuxiliaryDataTypeConsumer::F32Vec3 => 4,
                AuxiliaryDataTypeConsumer::F32Vec4 => 5,
            };
            assert(shapes@[at] == k);
        }
        shapes
    }
}

/// Copies a vector of words.
pub fn copy_words(words: &Vec<u32>) -> (copy: Vec<u32>)
    ensures
        copy@ == words@,
{
    let mut copy: Vec<u32> = Vec::new();
    let n = words.len();
    let mut i: usize = 0;
    while i < n
        invariant
            n == words@.len(),
            i <= n,
            copy@ == words@.subrange(0, i as int),
        decreases n - i,
    {
        copy.push(words[i]);
        assert(copy@ =~= words@.subrange(0, i + 1));
        i += 1;
    }
    assert(words@.subrange(0, n as int) =~= words@);
    copy
}

/// An array of 1 dimension: its scalars in row-major order and the size of
/// each dimension. The number of scalars is the product of the sizes.
#[derive(Debug)]
pub struct AuxDataF32Vec {
    data: Vec<u32>,
    size_dimension_1: u32,
}

impl AuxDataF32Vec {
    #[verifier::type_invariant]
    closed spec fn shape_holds(self) -> bool {
        &&& self.data@.len() == self.size_dimension_1
        &&& self.data@.len() <= u32::MAX
    }

    /// The scalars in row-major order.
    pub closed spec fn values(&self) -> Seq<u32> {
        self.data@
    }

    /// The size of each dimension, in order.
    pub closed spec fn dims(&self) -> Seq<u32> {
        seq![self.size_dimension_1]
    }

    /// Whether `value` has as many scalars as its dimension sizes multiply
    /// to, with every size and the count within 32 bits.
    pub open spec fn accepts(value: (Vec<u32>, usize)) -> bool {
        &&& value.1 <= u32::MAX
        &&& value.0@.len() <= u32::MAX
        &&& value.0@.len() == value.1
    }

    /// Builds the array from its scalars and dimension sizes; fails with
    /// `IncorrectDimensions` unless the sizes multiply to the number of
    /// scalars.
    pub fn try_from(value: (Vec<u32>, usize)) -> (made: Result<Self, AuxDataError>)
        ensures
            made is Ok <==> Self::accepts(value),
            made is Ok ==> made->Ok_0.values() == value.0@ && made->Ok_0.dims() == seq![value.1 as u32]
                && made->Ok_0.values().len() == product(made->Ok_0.dims()),
            made is Err ==> made->Err_0 == AuxDataError::IncorrectDimensions,
    {
        let data = value.0;
        let size_dimension_1: usize = value.1;
        if size_dimension_1 > 0xffff_ffff {
            return Err(AuxDataError::IncorrectDimensions);
        }
        let mut total: u128 = size_dimension_1 as u128;
        if data.len() > 0xffff_ffff || total != data.len() as u128 {
            return Err(AuxDataError::IncorrectDimensions);
        }
        let made = AuxDataF32Vec {
            data,
            size_dimension_1: size_dimension_1 as u32,
        };
        proof {
            lemma_product_unfold(made.dims());
        }
        Ok(made)
    }

    /// The scalars in row-major order.
    pub fn data(&self) -> (words: &Vec<u32>)
        ensures
            words@ == self.values(),
            words@.len() == product(self.dims()),
            words@.len() <= u32::MAX,
    {
        proof {
            use_type_invariant(self);
            lemma_product_unfold(self.dims());
        }
        &self.data
    }

    /// The size of each dimension, in order.
    pub fn dimensions(&self) -> (dims: Vec<u32>)
        ensures
            dims@ == self.dims(),
            dims@.len() == 1,
    {
        let mut dims: Vec<u32> = Vec::new();
        dims.push(self.size_dimension_1);
        assert(dims@ =~= self.dims());
        dims
    }
}

impl Clone for AuxDataF32Vec {
    fn clone(&self) -> (copy: Self)
        ensures
            copy.values() == self.values(),
            copy.dims() == self.dims(),
    {
        proof {
            use_type_invariant(self);
        }
        AuxDataF32Vec {
            data: copy_words(&self.data),
            size_dimension_1: self.size_dimension_1,
        }
    }
}

/// An array of 2 dimensions: its scalars in row-major order and the size of
/// each dimension. The number of scalars is the product of the sizes.
#[derive(Debug)]
pub struct AuxDataF32Vec2 {
    data: Vec<u32>,
    size_dimension_1: u32,
    size_dimension_2: u32,
}

impl AuxDataF32Vec2 {
    #[verifier::type_invariant]
    closed spec fn shape_holds(self) -> bool {
        &&& self.data@.len() == self.size_dimension_1 * self.size_dimension_2
        &&& self.data@.len() <= u32::MAX
    }

    /// The scalars in row-major order.
    pub closed spec fn values(&self) -> Seq<u32> {
        self.data@
    }

    /// The size of each dimension, in order.
    pub closed spec fn dims(&self) -> Seq<u32> {
        seq![self.size_dimension_1, self.size_dimension_2]
    }

    /// Whether `value` has as many scalars as its dimension sizes multiply
    /// to, with every size and the count within 32 bits.
    pub open spec fn accepts(value: (Vec<u32>, usize, usize)) -> bool {
        &&& value.1 <= u32::MAX && value.2 <= u32::MAX
        &&& value.0@.len() <= u32::MAX
        &&& value.0@.len() == value.1 * value.2
    }

    /// Builds the array from its scalars and dimension sizes; fails with
    /// `IncorrectDimensions` unless the sizes multiply to the number of
    /// scalars.
    pub fn try_from(value: (Vec<u32>, usize, usize)) -> (made: Result<Self, AuxDataError>)
        ensures
            made is Ok <==> Self::accepts(value),
            made is Ok ==> made->Ok_0.values() == value.0@ && made->Ok_0.dims() == seq![value.1 as u32, value.2 as u32]
                && made->Ok_0.values().len() == product(made->Ok_0.dims()),
            made is Err ==> made->Err_0 == AuxDataError::IncorrectDimensions,
    {
        let data = value.0;
        let size_dimension_1: usize = value.1;
        let size_dimension_2: usize = value.2;
        if size_dimension_1 > 0xffff_ffff || size_dimension_2 > 0xffff_ffff {
            return Err(AuxDataError::IncorrectDimensions);
        }
        let mut total: u128 = size_dimension_1 as u128;
        assert(total * size_dimension_2 <= 0xffff_ffff * 0xffff_ffff) by (nonlinear_arith)
            requires
                total <= 0xffff_ffff,
                size_dimension_2 <= 0xffff_ffff,
        ;
        total = total * (size_dimension_2 as u128);
        if data.len() > 0xffff_ffff || total != data.len() as u128 {
            return Err(AuxDataError::IncorrectDimensions);
        }
        let made = AuxDataF32Vec2 {
            data,
            size_dimension_1: size_dimension_1 as u32,
            size_dimension_2: size_dimension_2 as u32,
        };
        proof {
            lemma_product_unfold(made.dims());
        }
        Ok(made)
    }

    /// The scalars in row-major order.
    pub fn data(&self) -> (words: &Vec<u32>)
        ensures
            words@ == self.values(),
            words@.len() == product(self.dims()),
            words@.len() <= u32::MAX,
    {
        proof {
            use_type_invariant(self);
            lemma_product_unfold(self.dims());
        }
        &self.data
    }

    /// The size of each dimension, in order.
    pub fn dimensions(&self) -> (dims: Vec<u32>)
        ensures
            dims@ == self.dims(),
            dims@.len() == 2,
    {
        let mut dims: Vec<u32> = Vec::new();
        dims.push(self.size_dimension_1);
        dims.push(self.size_dimension_2);
        assert(dims@ =~= self.dims());
        dims
    }
}

impl Clone for AuxDataF32Vec2 {
    fn clone(&self) -> (copy: Self)
        ensures
            copy.values() == self.values(),
            copy.dims() == self.dims(),
    {
        proof {
            use_type_invariant(self);
        }
        AuxDataF32Vec2 {
            data: copy_words(&self.data),
            size_dimension_1: self.size_dimension_1,
            size_dimension_2: self.size_dimension_2,
        }
    }
}

/// An array of 3 dimensions: its scalars in row-major order and the size of
/// each dimension. The number of scalars is the product of the sizes.
#[derive(Debug)]
pub struct AuxDataF32Vec3 {
    data: Vec<u32>,
    size_dimension_1: u32,
    size_dimension_2: u32,
    size_dimension_3: u32,
}

impl AuxDataF32Vec3 {
    #[verifier::type_invariant]
    closed spec fn shape_holds(self) -> bool {
        &&& self.data@.len() == self.size_dimension_1 * self.size_dimension_2 * self.size_dimension_3
        &&& self.data@.len() <= u32::MAX
    }

    /// The scalars in row-major order.
    pub closed spec fn values(&self) -> Seq<u32> {
        self.data@
    }

    /// The size of each dimension, in order.
    pub closed spec fn dims(&self) -> Seq<u32> {
        seq![self.size_dimension_1, self.size_dimension_2, self.size_dimension_3]
    }

    /// Whether `value` has as many scalars as its dimension sizes multiply
    /// to, with every size and the count within 32 bits.
    pub open spec fn accepts(value: (Vec<u32>, usize, usize, usize)) -> bool {
        &&& value.1 <= u32::MAX && value.2 <= u32::MAX && value.3 <= u32::MAX
        &&& value.0@.len() <= u32::MAX
        &&& value.0@.len() == value.1 * value.2 * value.3
    }

    /// Builds the array from its scalars and dimension sizes; fails with
    /// `IncorrectDimensions` unless the sizes multiply to the number of
    /// scalars.
    pub fn try_from(value: (Vec<u32>, usize, usize, usize)) -> (made: Result<Self, AuxDataError>)
        ensures
            made is Ok <==> Self::accepts(value),
            made is Ok ==> made->Ok_0.values() == value.0@ && made->Ok_0.dims() == seq![value.1 as u32, value.2 as u32, value.3 as u32]
                && made->Ok_0.values().len() == product(made->Ok_0.dims()),
            made is Err ==> made->Err_0 == AuxDataError::IncorrectDimensions,
    {
        let data = value.0;
        let size_dimension_1: usize = value.1;
        let size_dimension_2: usize = value.2;
        let size_dimension_3: usize = value.3;
        if size_dimension_1 > 0xffff_ffff || size_dimension_2 > 0xffff_ffff || size_dimension_3 > 0xffff_ffff {
            return Err(AuxDataError::IncorrectDimensions);
        }
        let mut total: u128 = size_dimension_1 as u128;
        assert(total * size_dimension_2 <= 0xffff_ffff * 0xffff_ffff) by (nonlinear_arith)
            requires
                total <= 0xffff_ffff,
                size_dimension_2 <= 0xffff_ffff,
        ;
        total = total * (size_dimension_2 as u128);
        assert(total * size_dimension_3 <= 0xffff_ffff * 0xffff_ffff * 0xffff_ffff) by (nonlinear_arith)
            requires
                total <= 0xffff_ffff * 0xffff_ffff,
                size_dimension_3 <= 0xffff_ffff,
        ;
        total = total * (size_dimension_3 as u128);
        if data.len() > 0xffff_ffff || total != data.len() as u128 {
            return Err(AuxDataError::IncorrectDimensions);
        }
        let made = AuxDataF32Vec3 {
            data,
            size_dimension_1: size_dimension_1 as u32,
            size_dimension_2: size_dimension_2 as u32,
            size_dimension_3: size_dimension_3 as u32,
        };
        proof {
            lemma_product_unfold(made.dims());
        }
        Ok(made)
    }

    /// The scalars in row-major order.
    pub fn data(&self) -> (words: &Vec<u32>)
        ensures
            words@ == self.values(),
            words@.len() == product(self.dims()),
            words@.len() <= u32::MAX,
    {
        proof {
            use_type_invariant(self);
            lemma_product_unfold(self.dims());
        }
        &self.data
    }

    /// The size of each dimension, in order.
    pub fn dimensions(&self) -> (dims: Vec<u32>)
        ensures
            dims@ == self.dims(),
            dims@.len() == 3,
    {
        let mut dims: Vec<u32> = Vec::new();
        dims.push(self.size_dimension_1);
        dims.push(self.size_dimension_2);
        dims.push(self.size_dimension_3);
        assert(dims@ =~= self.dims());
        dims
    }
}

impl Clone for AuxDataF32Vec3 {
    fn clone(&self) -> (copy: Self)
        ensures
            copy.values() == self.values(),
            copy.dims() == self.dims(),
    {
        proof {
            use_type_invariant(self);
        }
        AuxDataF32Vec3 {
            data: copy_words(&self.data),
            size_dimension_1: self.size_dimension_1,
            size_dimension_2: self.size_dimension_2,
            size_dimension_3: self.size_dimension_3,
        }
    }
}

/// An array of 4 dimensions: its scalars in row-major order and the size of
/// each dimension. The number of scalars is the product of the sizes.
#[derive(Debug)]
pub struct AuxDataF32Vec4 {
    data: Vec<u32>,
    size_dimension_1: u32,
    size_dimension_2: u32,
    size_dimension_3: u32,
    size_dimension_4: u32,
}

impl AuxDataF32Vec4 {
    #[verifier::type_invariant]
    closed spec fn shape_holds(self) -> bool {
        &&& self.data@.len() == self.size_dimension_1 * self.size_dimension_2 * self.size_dimension_3 * self.size_dimension_4
        &&& self.data@.len() <= u32::MAX
    }

    /// The scalars in row-major order.
    pub closed spec fn values(&self) -> Seq<u32> {
        self.data@
    }

    /// The size of each dimension, in order.
    pub closed spec fn dims(&self) -> Seq<u32> {
        seq![self.size_dimension_1, self.size_dimension_2, self.size_dimension_3, self.size_dimension_4]
    }

    /// Whether `value` has as many scalars as its dimension sizes multiply
    /// to, with every size and the count within 32 bits.
    pub open spec fn accepts(value: (Vec<u32>, usize, usize, usize, usize)) -> bool {
        &&& value.1 <= u32::MAX && value.2 <= u32::MAX && value.3 <= u32::MAX && value.4 <= u32::MAX
        &&& value.0@.len() <= u32::MAX
        &&& value.0@.len() == value.1 * value.2 * value.3 * value.4
    }

    /// Builds the array from its scalars and dimension sizes; fails with
    /// `IncorrectDimensions` unless the sizes multiply to the number of
    /// scalars.
    pub fn try_from(value: (Vec<u32>, usize, usize, usize, usize)) -> (made: Result<Self, AuxDataError>)
        ensures
            made is Ok <==> Self::accepts(value),
            made is Ok ==> made->Ok_0.values() == value.0@ && made->Ok_0.dims() == seq![value.1 as u32, value.2 as u32, value.3 as u32, value.4 as u32]
                && made->Ok_0.values().len() == product(made->Ok_0.dims()),
            made is Err ==> made->Err_0 == AuxDataError::IncorrectDimensions,
    {
        let data = value.0;
        let size_dimension_1: usize = value.1;
        let size_dimension_2: usize = value.2;
        let size_dimension_3: usize = value.3;
        let size_dimension_4: usize = value.4;
        if size_dimension_1 > 0xffff_ffff || size_dimension_2 > 0xffff_ffff || size_dimension_3 > 0xffff_ffff || size_dimension_4 > 0xffff_ffff {
            return Err(AuxDataError::IncorrectDimensions);
        }
        let mut total: u128 = size_dimension_1 as u128;
        assert(total * size_dimension_2 <= 0xffff_ffff * 0xffff_ffff) by (nonlinear_arith)
            requires
                total <= 0xffff_ffff,
                size_dimension_2 <= 0xffff_ffff,
        ;
        total = total * (size_dimension_2 as u128);
        assert(total * size_dimension_3 <= 0xffff_ffff * 0xffff_ffff * 0xffff_ffff) by (nonlinear_arith)
            requires
                total <= 0xffff_ffff * 0xffff_ffff,
                size_dimension_3 <= 0xffff_ffff,
        ;
        total = total * (size_dimension_3 as u128);
        assert(total * size_dimension_4 <= 0xffff_ffff * 0xffff_ffff * 0xffff_ffff * 0xffff_ffff) by (nonlinear_arith)
            requires
                total <= 0xffff_ffff * 0xffff_ffff * 0xffff_ffff,
                size_dimension_4 <= 0xffff_ffff,
        ;
        total = total * (size_dimension_4 as u128);
        if data.len() > 0xffff_ffff || total != data.len() as u128 {
            return Err(AuxDataError::IncorrectDimensions);
        }
        let made = AuxDataF32Vec4 {
            data,
            size_dimension_1: size_dimension_1 as u32,
            size_dimension_2: size_dimension_2 as u32,
            size_dimension_3: size_dimension_3 as u32,
            size_dimension_4: size_dimension_4 as u32,
        };
        proof {
            lemma_product_unfold(made.dims());
        }
        Ok(made)
    }

    /// The scalars in row-major order.
    pub fn data(&self) -> (words: &Vec<u32>)
        ensures
            words@ == self.values(),
            words@.len() == product(self.dims()),
            words@.len() <= u32::MAX,
    {
        proof {
            use_type_invariant(self);
            lemma_product_unfold(self.dims());
        }
        &self.data
    }

    /// The size of each dimension, in order.
    pub fn dimensions(&self) -> (dims: Vec<u32>)
        ensures
            dims@ == self.dims(),
            dims@.len() == 4,
    {
        let mut dims: Vec<u32> = Vec::new();
        dims.push(self.size_dimension_1);
        dims.push(self.size_dimension_2);
        dims.push(self.size_dimension_3);
        dims.push(self.size_dimension_4);
        assert(dims@ =~= self.dims());
        dims
    }
}

impl Clone for AuxDataF32Vec4 {
    fn clone(&self) -> (copy: Self)
        ensures
            copy.values() == self.values(),
            copy.dims() == self.dims(),
    {
        proof {
            use_type_invariant(self);
        }
        AuxDataF32Vec4 {
            data: copy_words(&self.data),
            size_dimension_1: self.size_dimension_1,
            size_dimension_2: self.size_dimension_2,
            size_dimension_3: self.size_dimension_3,
            size_dimension_4: self.size_dimension_4,
        }
    }
}

/// The current value of an auxiliary stream.
#[derive(Debug)]
pub enum AuxiliaryDataType {
    Empty,
    /// One scalar, by its bit pattern.
    F32(u32),
    F32Vec(AuxDataF32Vec),
    F32Vec2(AuxDataF32Vec2),
    F32Vec3(AuxDataF32Vec3),
    F32Vec4(AuxDataF32Vec4),
}

impl View for AuxiliaryDataType {
    type V = AuxValue;

    open spec fn view(&self) -> AuxValue {
        match self {
            AuxiliaryDataType::Empty => AuxValue {
                kind: AuxiliaryDataTypeConsumer::Empty,
                dims: Seq::<u32>::empty(),
                values: Seq::<u32>::empty(),
            },
            AuxiliaryDataType::F32(bits) => AuxValue {
                kind: AuxiliaryDataTypeConsumer::F32,
                dims: Seq::<u32>::empty(),
                values: seq![*bits],
            },
            AuxiliaryDataType::F32Vec(array) => AuxValue {
                kind: AuxiliaryDataTypeConsumer::F32Vec,
                dims: array.dims(),
                values: array.values(),
            },
            AuxiliaryDataType::F32Vec2(array) => AuxValue {
                kind: AuxiliaryDataTypeConsumer::F32Vec2,
                dims: array.dims(),
                values: array.values(),
            },
            AuxiliaryDataType::F32Vec3(array) => AuxValue {
                kind: AuxiliaryDataTypeConsumer::F32Vec3,
                dims: array.dims(),
                values: array.values(),
            },
            AuxiliaryDataType::F32Vec4(array) => AuxValue {
                kind: AuxiliaryDataTypeConsumer::F32Vec4,
                dims: array.dims(),
                values: array.values(),
            },
        }
    }
}

impl AuxValue {
    /// The shape rule: one size per dimension of the shape, and as many
    /// scalars as the sizes multiply to (none for `Empty`, one for a scalar).
    pub open spec fn wf(self) -> bool {
        &&& self.dims.len() == self.kind.rank()
        &&& self.values.len() <= u32::MAX
        &&& self.kind == AuxiliaryDataTypeConsumer::Empty ==> self.values.len() == 0
        &&& self.kind != AuxiliaryDataTypeConsumer::Empty ==> self.values.len() == product(
            self.dims,
        )
    }

    /// The GPU byte layout of the value when payload words are written in
    /// `order`: each dimension size big-endian, then the payload. A scalar is
    /// written big-endian whatever the order.
    pub open spec fn encoding(self, order: ByteOrder) -> Seq<u8> {
        match self.kind {
            AuxiliaryDataTypeConsumer::Empty => Seq::<u8>::empty(),
            AuxiliaryDataTypeConsumer::F32 => be_bytes(self.values[0]),
            _ => words_bytes(self.dims, ByteOrder::Big) + words_bytes(self.values, order),
        }
    }

    /// The length of the layout in bytes: four per dimension and four per
    /// scalar.
    pub open spec fn encoded_len(self) -> nat {
        match self.kind {
            AuxiliaryDataTypeConsumer::Empty => 0,
            AuxiliaryDataTypeConsumer::F32 => 4,
            _ => 4 * self.dims.len() + 4 * self.values.len(),
        }
    }

    /// The layout has four bytes per dimension and four per scalar, in
    /// either byte order.
    pub proof fn lemma_encoded_len(self, order: ByteOrder)
        ensures
            self.encoding(order).len() == self.encoded_len(),
    {
        lemma_words_bytes_layout(self.dims, ByteOrder::Big);
        lemma_words_bytes_layout(self.values, order);
    }

    /// `bytes` is the layout of the value on a machine of either byte order.
    pub open spec fn laid_out_as(self, bytes: Seq<u8>) -> bool {
        bytes == self.encoding(ByteOrder::Little) || bytes == self.encoding(ByteOrder::Big)
    }

    /// Reads `bytes` as the layout of a value of shape `kind` whose payload
    /// words are in `order`; `None` where the bytes are no such layout.
    pub open spec fn decode(
        bytes: Seq<u8>,
        kind: AuxiliaryDataTypeConsumer,
        order: ByteOrder,
    ) -> Option<AuxValue> {
        match kind {
            AuxiliaryDataTypeConsumer::Empty => if bytes.len() == 0 {
                Some(AuxValue { kind, dims: Seq::<u32>::empty(), values: Seq::<u32>::empty() })
            } else {
                None
            },
            AuxiliaryDataTypeConsumer::F32 => if bytes.len() == 4 {
                Some(
                    AuxValue {
                        kind,
                        dims: Seq::<u32>::empty(),
                        values: seq![word_of(bytes, ByteOrder::Big)],
                    },
                )
            } else {
                None
            },
            _ => {
                let prefix = 4 * kind.rank();
                if bytes.len() >= prefix && (bytes.len() - prefix) % 4 == 0 {
                    let dims = words_of(bytes.subrange(0, prefix as int), ByteOrder::Big);
                    let values = words_of(bytes.subrange(prefix as int, bytes.len() as int), order);
                    if values.len() == product(dims) {
                        Some(AuxValue { kind, dims, values })
                    } else {
                        None
                    }
                } else {
                    None
                }
            },
        }
    }

    /// Decoding the layout of a well-shaped value by the documented layout
    /// gives the value back, whichever byte order the payload is in.
    pub proof fn lemma_encoding_round_trip(self, order: ByteOrder)
        requires
            self.wf(),
        ensures
            AuxValue::decode(self.encoding(order), self.kind, order) == Some(self),
    {
        let bytes = self.encoding(order);
        match self.kind {
            AuxiliaryDataTypeConsumer::Empty => {
                assert(self.dims =~= Seq::<u32>::empty());
                assert(self.values =~= Seq::<u32>::empty());
            },
            AuxiliaryDataTypeConsumer::F32 => {
                assert(self.dims =~= Seq::<u32>::empty());
                lemma_product_unfold(self.dims);
                lemma_word_round_trip(self.values[0], ByteOrder::Big);
                assert(self.values =~= seq![word_of(bytes, ByteOrder::Big)]);
            },
            _ => {
                let prefix = 4 * self.kind.rank();
                lemma_words_bytes_layout(self.dims, ByteOrder::Big);
                lemma_words_bytes_layout(self.values, order);
                assert(bytes.subrange(0, prefix as int) =~= words_bytes(self.dims, ByteOrder::Big));
                assert(bytes.subrange(prefix as int, bytes.len() as int) =~= words_bytes(
                    self.values,
                    order,
                ));
                lemma_words_round_trip(self.dims, ByteOrder::Big);
                lemma_words_round_trip(self.values, order);
            },
        }
    }
}

/// The layout of an array: its dimension sizes big-endian, then its scalars
/// as they lie in memory.
fn encode_array(dims: &Vec<u32>, data: &Vec<u32>) -> (bytes: Vec<u8>)
    ensures
        bytes@ == words_bytes(dims@, ByteOrder::Big) + words_bytes(data@, ByteOrder::Little)
            || bytes@ == words_bytes(dims@, ByteOrder::Big) + words_bytes(data@, ByteOrder::Big),
{
    let mut bytes: Vec<u8> = Vec::new();
    let n = dims.len();
    let mut i: usize = 0;
    while i < n
        invariant
            n == dims@.len(),
            i <= n,
            bytes@ == words_bytes(dims@.subrange(0, i as int), ByteOrder::Big),
        decreases n - i,
    {
        push_be_bytes(&mut bytes, dims[i]);
        assert(dims@.subrange(0, i + 1).drop_last() =~= dims@.subrange(0, i as int));
        i += 1;
    }
    assert(dims@.subrange(0, n as int) =~= dims@);
    let payload = words_as_native_bytes(data);
    push_all(&mut bytes, &payload);
    bytes
}

impl AuxiliaryDataType {
    /// The GPU byte layout of the value: the size of each dimension as a
    /// big-endian `u32`, then the scalars in row-major order as they lie in
    /// memory (a scalar alone is written big-endian, with no prefix). The
    /// payload is in the machine's byte order, so the result is the layout
    /// for one of the two orders.
    pub fn to_data_buffer(&self) -> (bytes: Vec<u8>)
        ensures
            self@.wf(),
            bytes@ == self@.encoding(ByteOrder::Little) || bytes@ == self@.encoding(
                ByteOrder::Big,
            ),
            self@.laid_out_as(bytes@),
            bytes@.len() == self@.encoded_len(),
    {
        proof {
            self@.lemma_encoded_len(ByteOrder::Little);
            self@.lemma_encoded_len(ByteOrder::Big);
        }
        self.shape();
        match self {
            AuxiliaryDataType::Empty => Vec::new(),
            AuxiliaryDataType::F32(bits) => {
                let mut bytes: Vec<u8> = Vec::new();
                push_be_bytes(&mut bytes, *bits);
                assert(bytes@ =~= be_bytes(*bits));
                bytes
            },
            AuxiliaryDataType::F32Vec(array) => {
                let dims = array.dimensions();
                encode_array(&dims, array.data())
            },
            AuxiliaryDataType::F32Vec2(array) => {
                let dims = array.dimensions();
                encode_array(&dims, array.data())
            },
            AuxiliaryDataType::F32Vec3(array) => {
                let dims = array.dimensions();
                encode_array(&dims, array.data())
            },
            AuxiliaryDataType::F32Vec4(array) => {
                let dims = array.dimensions();
                encode_array(&dims, array.data())
            },
        }
    }

    /// The number of scalars of the value: none for `Empty`, one for a
    /// scalar, the product of the dimension sizes for an array.
    pub fn get_number_of_values(&self) -> (n: u32)
        ensures
            self@.wf(),
            n == self@.values.len(),
    {
        self.shape();
        match self {
            AuxiliaryDataType::Empty => 0,
            AuxiliaryDataType::F32(_) => 1,
            AuxiliaryDataType::F32Vec(array) => {
                let n = array.data().len();
                n as u32
            },
            AuxiliaryDataType::F32Vec2(array) => {
                let n = array.data().len();
                n as u32
            },
            AuxiliaryDataType::F32Vec3(array) => {
                let n = array.data().len();
                n as u32
            },
            AuxiliaryDataType::F32Vec4(array) => {
                let n = array.data().len();
                n as u32
            },
        }
    }

    /// The shape rule holds of every value: it has one size per dimension and
    /// as many scalars as the sizes multiply to.
    pub fn shape(&self)
        ensures
            self@.wf(),
    {
        match self {
            AuxiliaryDataType::Empty => {},
            AuxiliaryDataType::F32(_) => {
                proof {
                    lemma_product_unfold(self@.dims);
                }
            },
            AuxiliaryDataType::F32Vec(array) => {
                let _words = array.data();
                let _dims = array.dimensions();
            },
            AuxiliaryDataType::F32Vec2(array) => {
                let _words = array.data();
                let _dims = array.dimensions();
            },
            AuxiliaryDataType::F32Vec3(array) => {
                let _words = array.data();
                let _dims = array.dimensions();
            },
            AuxiliaryDataType::F32Vec4(array) => {
                let _words = array.data();
                let _dims = array.dimensions();
            },
        }
    }
}

impl Clone for AuxiliaryDataType {
    fn clone(&self) -> (copy: Self)
        ensures
            copy@ == self@,
    {
        match self {
            AuxiliaryDataType::Empty => AuxiliaryDataType::Empty,
            AuxiliaryDataType::F32(bits) => AuxiliaryDataType::F32(*bits),
            AuxiliaryDataType::F32Vec(array) => AuxiliaryDataType::F32Vec(array.clone()),
            AuxiliaryDataType::F32Vec2(array) => AuxiliaryDataType::F32Vec2(array.clone()),
            AuxiliaryDataType::F32Vec3(array) => AuxiliaryDataType::F32Vec3(array.clone()),
            AuxiliaryDataType::F32Vec4(array) => AuxiliaryDataType::F32Vec4(array.clone()),
        }
    }
}

impl AuxiliaryDataTypeConsumer {
    /// The value a new auxiliary of this shape starts with: a zero scalar, or
    /// an array whose dimensions are all zero.
    pub fn default_aux_value(&self) -> (value: AuxiliaryDataType)
        ensures
            value@ == self.spec_default_value(),
            value@.wf(),
    {
        let value = match self {
            AuxiliaryDataTypeConsumer::Empty => {
                assert(Seq::<u32>::empty() =~= Seq::new(0, |i: int| 0u32));
                AuxiliaryDataType::Empty
            },
            AuxiliaryDataTypeConsumer::F32 => {
                assert(Seq::<u32>::empty() =~= Seq::new(0, |i: int| 0u32));
                AuxiliaryDataType::F32(0)
            },
            AuxiliaryDataTypeConsumer::F32Vec => {
                let data: Vec<u32> = Vec::new();
                assert(forall|a: int, b: int| a == 0 ==> #[trigger] (a * b) == 0) by (nonlinear_arith);
                let array = AuxDataF32Vec {
                    data,
                    size_dimension_1: 0,
                };
                assert(array.dims() =~= Seq::new(1, |i: int| 0u32));
                proof {
                    lemma_product_unfold(array.dims());
                }
                AuxiliaryDataType::F32Vec(array)
            },
            AuxiliaryDataTypeConsumer::F32Vec2 => {
                let data: Vec<u32> = Vec::new();
                assert(forall|a: int, b: int| a == 0 ==> #[trigger] (a * b) == 0) by (nonlinear_arith);
                let array = AuxDataF32Vec2 {
                    data,
                    size_dimension_1: 0,
                    size_dimension_2: 0,
                };
                assert(array.dims() =~= Seq::new(2, |i: int| 0u32));
                proof {
                    lemma_product_unfold(array.dims());
                }
                AuxiliaryDataType::F32Vec2(array)
            },
            AuxiliaryDataTypeConsumer::F32Vec3 => {
                let data: Vec<u32> = Vec::new();
                assert(forall|a: int, b: int| a == 0 ==> #[trigger] (a * b) == 0) by (nonlinear_arith);
                let array = AuxDataF32Vec3 {
                    data,
                    size_dimension_1: 0,
                    size_dimension_2: 0,
                    size_dimension_3: 0,
                };
                assert(array.dims() =~= Seq::new(3, |i: int| 0u32));
                proof {
                    lemma_product_unfold(array.dims());
                }
                AuxiliaryDataType::F32Vec3(array)
            },
            AuxiliaryDataTypeConsumer::F32Vec4 => {
                let data: Vec<u32> = Vec::new();
                assert(forall|a: int, b: int| a == 0 ==> #[trigger] (a * b) == 0) by (nonlinear_arith);
                let array = AuxDataF32Vec4 {
                    data,
                    size_dimension_1: 0,
                    size_dimension_2: 0,
                    size_dimension_3: 0,
                    size_dimension_4: 0,
                };
                assert(array.dims() =~= Seq::new(4, |i: int| 0u32));
                proof {
                    lemma_product_unfold(array.dims());
                }
                AuxiliaryDataType::F32Vec4(array)
            },
        };
        value.shape();
        value
    }
}

/// An auxiliary value together with the number of scalars it holds, which
/// sizes its GPU buffer.
#[derive(Debug)]
pub struct AuxiliaryData {
    pub data: AuxiliaryDataType,
    pub size: u32,
}

/// What an `AuxiliaryData` is, apart from how it is stored.
pub struct AuxiliaryDataView {
    pub data: AuxValue,
    pub size: u32,
}

impl View for AuxiliaryData {
    type V = AuxiliaryDataView;

    open spec fn view(&self) -> AuxiliaryDataView {
        AuxiliaryDataView { data: self.data@, size: self.size }
    }
}

impl AuxiliaryData {
    /// A value with its recorded size.
    pub fn new(data: AuxiliaryDataType, size: u32) -> (made: Self)
        ensures
            made.data == data,
            made.size == size,
    {
        AuxiliaryData { data, size }
    }

    /// A value with the size derived from it: its number of scalars.
    pub fn of(data: AuxiliaryDataType) -> (made: Self)
        ensures
            made.data == data,
            made.size == data@.values.len(),
            data@.wf(),
    {
        let size = data.get_number_of_values();
        AuxiliaryData { data, size }
    }
}

impl Clone for AuxiliaryData {
    fn clone(&self) -> (copy: Self)
        ensures
            copy@ == self@,
    {
        AuxiliaryData { data: self.data.clone(), size: self.size }
    }
}

/// Whether `data` has the shape that `consumer` expects.
pub fn aux_data_is_compatible(data: &AuxiliaryDataType, consumer: &AuxiliaryDataTypeConsumer) -> (ok:
    bool)
    ensures
        ok == (data@.kind == *consumer),
{
    aux_data_consumer_type_is_compatible(&aux_data_to_consumer_type(data), consumer)
}

/// Whether two shapes are the same.
pub fn aux_data_consumer_type_is_compatible(
    consumer_type_a: &AuxiliaryDataTypeConsumer,
    consumer_type_b: &AuxiliaryDataTypeConsumer,
) -> (ok: bool)
    ensures
        ok == (*consumer_type_a == *consumer_type_b),
{
    *consumer_type_a == *consumer_type_b
}

/// The shape of `data`.
pub fn aux_data_to_consumer_type(data: &AuxiliaryDataType) -> (kind: AuxiliaryDataTypeConsumer)
    ensures
        kind == data@.kind,
{
    match data {
        AuxiliaryDataType::Empty => AuxiliaryDataTypeConsumer::Empty,
        AuxiliaryDataType::F32(_) => AuxiliaryDataTypeConsumer::F32,
            AuxiliaryDataType::F32Vec(_) => AuxiliaryDataTypeConsumer::F32Vec,
            AuxiliaryDataType::F32Vec2(_) => AuxiliaryDataTypeConsumer::F32Vec2,
            AuxiliaryDataType::F32Vec3(_) => AuxiliaryDataTypeConsumer::F32Vec3,
            AuxiliaryDataType::F32Vec4(_) => AuxiliaryDataTypeConsumer::F32Vec4,
    }
}

} // verus!
