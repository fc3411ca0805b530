//! Validation of DLPack CPU tensors.
//!
//! A producer describes its buffer by a device, a shape, optional strides
//! and an element type. Everything here decides, from that description
//! alone, whether the buffer is one that can be borrowed as a flat slice of
//! a given element type, and how long that slice is.

use crate::failure::{refused, type_error, value_error, Failure, FailureView};
use crate::text::{
    debug_text, i64_list_text, i64_text, int_text, list_text, nat_text, quoted, u64_text,
    usize_text,
};
use vstd::prelude::*;

verus! {

pub const DL_DEVICE_CPU: i32 = 1;

pub const DL_DEVICE_CPU_PINNED: i32 = 3;

pub const DL_DTYPE_INT: u8 = 0;

pub const DL_DTYPE_UINT: u8 = 1;

pub const DL_DTYPE_FLOAT: u8 = 2;

pub const DL_DTYPE_BOOL: u8 = 6;

/// The element type of a tensor.
#[derive(Clone, Copy, Debug, PartialEq, Eq, Structural)]
pub struct DLDataType {
    pub code: u8,
    pub bits: u8,
    pub lanes: u16,
}

/// The layout in which a buffer is asked to be contiguous.
#[derive(Clone, Copy, Debug, PartialEq, Eq, Structural)]
pub enum Order {
    /// Row-major.
    C,
    /// Column-major.
    F,
}

/// The description of a CPU tensor.
#[derive(Debug)]
pub struct CpuTensorMeta {
    pub shape: Vec<i64>,
    pub strides: Option<Vec<i64>>,
    pub dtype: DLDataType,
    /// The address of the first element: never zero.
    pub data_addr: usize,
}

/// The product of the axis lengths from axis `i` on.
pub open spec fn suffix_product(shape: Seq<i64>, i: int) -> int
    decreases shape.len() - i,
{
    if i < 0 || i >= shape.len() {
        1
    } else {
        shape[i] * suffix_product(shape, i + 1)
    }
}

/// The product of the first `i` axis lengths.
pub open spec fn prefix_product(shape: Seq<i64>, i: int) -> int
    decreases i,
{
    if i <= 0 {
        1
    } else {
        prefix_product(shape, i - 1) * shape[i - 1]
    }
}

/// The strides are those of a row-major buffer: each axis steps by the
/// product of the lengths to its right. A zero-length axis steps by
/// anything. No such product leaves the range of an `i64`.
pub open spec fn row_major(shape: Seq<i64>, strides: Seq<i64>) -> bool {
    &&& forall|i: int|
        0 <= i < shape.len() && shape[i] != 0 ==> #[trigger] strides[i] == suffix_product(
            shape,
            i + 1,
        )
    &&& forall|i: int|
        0 <= i <= shape.len() ==> i64::MIN <= #[trigger] suffix_product(shape, i) <= i64::MAX
}

/// The strides are those of a column-major buffer.
pub open spec fn column_major(shape: Seq<i64>, strides: Seq<i64>) -> bool {
    &&& forall|i: int|
        0 <= i < shape.len() && shape[i] != 0 ==> #[trigger] strides[i] == prefix_product(shape, i)
    &&& forall|i: int|
        0 <= i <= shape.len() ==> i64::MIN <= #[trigger] prefix_product(shape, i) <= i64::MAX
}

/// At most one axis has a length other than one.
pub open spec fn one_axis(shape: Seq<i64>) -> bool {
    forall|i: int, j: int|
        0 <= i < shape.len() && 0 <= j < shape.len() && #[trigger] shape[i] != 1
            && #[trigger] shape[j] != 1 ==> i == j
}

impl CpuTensorMeta {
    /// Axis lengths are not negative, and strides are given for all axes or
    /// for none.
    pub open spec fn wf(&self) -> bool {
        &&& forall|i: int| 0 <= i < self.shape@.len() ==> 0 <= #[trigger] self.shape@[i]
        &&& self.strides matches Some(s) ==> s@.len() == self.shape@.len()
        &&& self.data_addr != 0
    }

    /// Is the buffer contiguous in `order`? Without strides it is row-major,
    /// and column-major where the two coincide.
    pub open spec fn contiguous(&self, order: Order) -> bool {
        match (self.strides, order) {
            (None, Order::C) => true,
            (None, Order::F) => one_axis(self.shape@),
            (Some(s), Order::C) => row_major(self.shape@, s@),
            (Some(s), Order::F) => column_major(self.shape@, s@),
        }
    }

    /// The number of elements, if no length is negative and every length and
    /// every product on the way fits.
    pub open spec fn element_count(&self) -> Option<usize> {
        if (forall|i: int|
            0 <= i < self.shape@.len() ==> 0 <= #[trigger] self.shape@[i] <= usize::MAX)
            && (forall|i: int|
            0 <= i <= self.shape@.len() ==> #[trigger] prefix_product(self.shape@, i)
                <= usize::MAX) {
            Some(prefix_product(self.shape@, self.shape@.len() as int) as usize)
        } else {
            None
        }
    }
}

/// Prefix products of lengths that are not negative are not negative.
proof fn lemma_prefix_nonneg(shape: Seq<i64>, i: int)
    requires
        i <= shape.len(),
        forall|k: int| 0 <= k < shape.len() ==> 0 <= #[trigger] shape[k],
    ensures
        0 <= prefix_product(shape, i),
    decreases i,
{
    if 0 < i {
        lemma_prefix_nonneg(shape, i - 1);
        assert(0 <= prefix_product(shape, i - 1) * shape[i - 1]) by (nonlinear_arith)
            requires
                0 <= shape[i - 1],
                0 <= prefix_product(shape, i - 1),
        ;
    }
}

/// At most one axis has a length other than one?
fn has_one_axis(shape: &Vec<i64>) -> (b: bool)
    ensures
        b == one_axis(shape@),
{
    let mut i: usize = 0;
    let mut seen: Option<usize> = None;
    while i < shape.len()
        invariant
            i <= shape.len(),
            match seen {
                None => forall|k: int| 0 <= k < i ==> shape@[k] == 1,
                Some(j) => j < i && shape@[j as int] != 1 && forall|k: int|
                    0 <= k < i && k != j ==> shape@[k] == 1,
            },
        decreases shape.len() - i,
    {
        if shape[i] != 1 {
            match seen {
                Some(j) => {
                    assert(shape@[j as int] != 1 && shape@[i as int] != 1 && i != j);
                    return false;
                },
                None => {
                    seen = Some(i);
                },
            }
        }
        i += 1;
    }
    true
}

/// Are these the strides of a row-major buffer?
fn is_row_major(shape: &Vec<i64>, strides: &Vec<i64>) -> (b: bool)
    requires
        strides@.len() >= shape@.len(),
    ensures
        b == row_major(shape@, strides@),
{
    let n: usize = shape.len();
    let mut k: usize = n;
    let mut expected: i64 = 1;
    while k > 0
        invariant
            k <= n == shape.len() <= strides.len(),
            expected == suffix_product(shape@, k as int),
            forall|i: int|
                k <= i < n && shape@[i] != 0 ==> #[trigger] strides@[i] == suffix_product(
                    shape@,
                    i + 1,
                ),
            forall|i: int|
                k <= i <= n ==> i64::MIN <= #[trigger] suffix_product(shape@, i) <= i64::MAX,
        decreases k,
    {
        let i: usize = k - 1;
        if shape[i] != 0 && strides[i] != expected {
            assert(strides@[i as int] != suffix_product(shape@, i + 1));
            return false;
        }
        match expected.checked_mul(shape[i]) {
            Some(next) => {
                proof {
                    assert(expected * shape@[i as int] == shape@[i as int] * expected)
                        by (nonlinear_arith);
                }
                expected = next;
            },
            None => {
                proof {
                    assert(expected * shape@[i as int] == shape@[i as int] * expected)
                        by (nonlinear_arith);
                    assert(!(i64::MIN <= suffix_product(shape@, i as int) <= i64::MAX));
                }
                return false;
            },
        }
        k = i;
    }
    true
}

/// Are these the strides of a column-major buffer?
fn is_column_major(shape: &Vec<i64>, strides: &Vec<i64>) -> (b: bool)
    requires
        strides@.len() >= shape@.len(),
    ensures
        b == column_major(shape@, strides@),
{
    let n: usize = shape.len();
    let mut i: usize = 0;
    let mut expected: i64 = 1;
    while i < n
        invariant
            i <= n == shape.len() <= strides.len(),
            expected == prefix_product(shape@, i as int),
            forall|k: int|
                0 <= k < i && shape@[k] != 0 ==> #[trigger] strides@[k] == prefix_product(
                    shape@,
                    k,
                ),
            forall|k: int|
                0 <= k <= i ==> i64::MIN <= #[trigger] prefix_product(shape@, k) <= i64::MAX,
        decreases n - i,
    {
        if shape[i] != 0 && strides[i] != expected {
            assert(strides@[i as int] != prefix_product(shape@, i as int));
            return false;
        }
        match expected.checked_mul(shape[i]) {
            Some(next) => {
                expected = next;
            },
            None => {
                assert(!(i64::MIN <= prefix_product(shape@, i + 1) <= i64::MAX));
                return false;
            },
        }
        i += 1;
    }
    true
}

/// Is the buffer contiguous in `order`?
pub fn is_contiguous(meta: &CpuTensorMeta, order: Order) -> (b: bool)
    requires
        meta.strides matches Some(s) ==> s@.len() >= meta.shape@.len(),
    ensures
        b == meta.contiguous(order),
{
    match &meta.strides {
        None => match order {
            Order::C => true,
            Order::F => has_one_axis(&meta.shape),
        },
        Some(strides) => match order {
            Order::C => is_row_major(&meta.shape, strides),
            Order::F => is_column_major(&meta.shape, strides),
        },
    }
}

/// The number of elements, if no length is negative and every product on the
/// way fits in a `usize`.
pub fn n_elements(meta: &CpuTensorMeta) -> (n: Option<usize>)
    ensures
        n == meta.element_count(),
{
    let mut product: usize = 1;
    let mut i: usize = 0;
    while i < meta.shape.len()
        invariant
            i <= meta.shape.len(),
            product == prefix_product(meta.shape@, i as int),
            forall|k: int| 0 <= k < i ==> 0 <= #[trigger] meta.shape@[k] <= usize::MAX,
            forall|k: int|
                0 <= k <= i ==> #[trigger] prefix_product(meta.shape@, k) <= usize::MAX,
        decreases meta.shape.len() - i,
    {
        let d: i64 = meta.shape[i];
        if d < 0 || d as u64 > usize::MAX as u64 {
            assert(!(0 <= meta.shape@[i as int] <= usize::MAX));
            return None;
        }
        match product.checked_mul(d as usize) {
            Some(next) => {
                product = next;
            },
            None => {
                assert(prefix_product(meta.shape@, i + 1) > usize::MAX);
                return None;
            },
        }
        i += 1;
    }
    Some(product)
}

/// The message of a tensor that is not on the CPU.
pub open spec fn gpu_rejection(field: Seq<char>, device_type: int) -> FailureView {
    type_error(
        "vernier-0030 does not accept GPU-resident detections; \
         move to CPU with .cpu() or .to('cpu') \
         (field detections."@ + field + ", device_type="@ + int_text(device_type) + ")"@,
    )
}

/// Is this a CPU device, pinned or not?
pub open spec fn is_cpu(device_type: int) -> bool {
    device_type == DL_DEVICE_CPU || device_type == DL_DEVICE_CPU_PINNED
}

/// The refusal of a tensor that is not on the CPU.
fn gpu_rejection_error(field: &str, device_type: i32) -> (e: Failure)
    ensures
        e@ == gpu_rejection(field@, device_type as int),
{
    let mut m = String::from_str(
        "vernier-0030 does not accept GPU-resident detections; \
         move to CPU with .cpu() or .to('cpu') \
         (field detections.",
    );
    m.append(field);
    m.append(", device_type=");
    m.append(i64_text(device_type as i64).as_str());
    m.append(")");
    Failure::type_error(m)
}

/// Screen the device that a producer reports.
pub fn screen_cpu_device(device_type: i32, field: &str) -> (r: Result<(), Failure>)
    ensures
        r is Ok <==> is_cpu(device_type as int),
        r matches Err(e) ==> e@ == gpu_rejection(field@, device_type as int),
{
    if device_type != DL_DEVICE_CPU && device_type != DL_DEVICE_CPU_PINNED {
        return Err(gpu_rejection_error(field, device_type));
    }
    Ok(())
}

/// A step of the DLPack protocol that an object can fail.
#[derive(Clone, Copy, Debug, PartialEq, Eq, Structural)]
pub enum ProtocolStep {
    /// Calling `__dlpack_device__`.
    DeviceCall,
    /// Reading its result as a tuple.
    DeviceTuple,
    /// Calling `__dlpack__`.
    CapsuleCall,
    /// Reading its result as a capsule.
    CapsuleType,
}

/// What a failed protocol step says.
pub open spec fn step_text(step: ProtocolStep) -> Seq<char> {
    match step {
        ProtocolStep::DeviceCall => ": object does not support DLPack \
             (no __dlpack_device__ method): "@,
        ProtocolStep::DeviceTuple => ": __dlpack_device__ did not return a tuple: "@,
        ProtocolStep::CapsuleCall => ": object does not support DLPack \
             (no __dlpack__ method): "@,
        ProtocolStep::CapsuleType => ": __dlpack__ did not return a PyCapsule: "@,
    }
}

/// The refusal of an object that failed a protocol step for `reason`.
pub fn protocol_error(field: &str, step: ProtocolStep, reason: &str) -> (e: Failure)
    ensures
        e@ == type_error("detections."@ + field@ + step_text(step) + reason@),
{
    let mut m = String::from_str("detections.");
    m.append(field);
    match step {
        ProtocolStep::DeviceCall => m.append(
            ": object does not support DLPack \
             (no __dlpack_device__ method): ",
        ),
        ProtocolStep::DeviceTuple => m.append(": __dlpack_device__ did not return a tuple: "),
        ProtocolStep::CapsuleCall => m.append(
            ": object does not support DLPack \
             (no __dlpack__ method): ",
        ),
        ProtocolStep::CapsuleType => m.append(": __dlpack__ did not return a PyCapsule: "),
    }
    m.append(reason);
    Failure::type_error(m)
}

/// The layout of the structure behind a capsule.
#[derive(Clone, Copy, Debug, PartialEq, Eq, Structural)]
pub enum CapsuleLayout {
    Unversioned,
    Versioned,
}

/// Which structure a capsule's name promises, or why it is refused.
pub open spec fn capsule_layout(name: Option<Seq<char>>, field: Seq<char>) -> Result<
    CapsuleLayout,
    FailureView,
> {
    match name {
        None => Err(
            type_error(
                "detections."@ + field + ": DLPack capsule has no name (corrupt producer?)"@,
            ),
        ),
        Some(n) => if n == "dltensor"@ {
            Ok(CapsuleLayout::Unversioned)
        } else if n == "dltensor_versioned"@ {
            Ok(CapsuleLayout::Versioned)
        } else if n == "used_dltensor"@ {
            Err(
                type_error(
                    "detections."@ + field + ": DLPack capsule has already been consumed"@,
                ),
            )
        } else {
            Err(
                type_error(
                    "detections."@ + field + ": unexpected DLPack capsule name "@ + debug_text(n),
                ),
            )
        },
    }
}

/// Tell from a capsule's name which structure is behind it.
pub fn read_capsule_tensor(name: &Option<String>, field: &str) -> (r: Result<
    CapsuleLayout,
    Failure,
>)
    ensures
        refused(r) == capsule_layout(
            match name {
                Some(n) => Some(n@),
                None => None,
            },
            field@,
        ),
{
    let mut m = String::from_str("detections.");
    m.append(field);
    match name {
        None => {
            m.append(": DLPack capsule has no name (corrupt producer?)");
            Err(Failure::type_error(m))
        },
        Some(n) => if *n == String::from_str("dltensor") {
            Ok(CapsuleLayout::Unversioned)
        } else if *n == String::from_str("dltensor_versioned") {
            Ok(CapsuleLayout::Versioned)
        } else if *n == String::from_str("used_dltensor") {
            m.append(": DLPack capsule has already been consumed");
            Err(Failure::type_error(m))
        } else {
            m.append(": unexpected DLPack capsule name ");
            m.append(quoted(n.as_str()).as_str());
            Err(Failure::type_error(m))
        },
    }
}

/// The number of axes of a tensor on `device_type` that reports `ndim`, or
/// why it is refused.
pub open spec fn header_axes(device_type: i32, ndim: i32, field: Seq<char>) -> Result<
    usize,
    FailureView,
> {
    if !is_cpu(device_type as int) {
        Err(gpu_rejection(field, device_type as int))
    } else if ndim < 0 || ndim > 8 {
        Err(value_error("detections."@ + field + ": implausible ndim "@ + int_text(ndim as int)))
    } else {
        Ok(ndim as usize)
    }
}

/// Check the header of a tensor before its shape is read.
pub fn check_header(device_type: i32, ndim: i32, field: &str) -> (r: Result<usize, Failure>)
    ensures
        refused(r) == header_axes(device_type, ndim, field@),
{
    if device_type != DL_DEVICE_CPU && device_type != DL_DEVICE_CPU_PINNED {
        return Err(gpu_rejection_error(field, device_type));
    }
    if ndim < 0 || ndim > 8 {
        let mut m = String::from_str("detections.");
        m.append(field);
        m.append(": implausible ndim ");
        m.append(i64_text(ndim as i64).as_str());
        return Err(Failure::value_error(m));
    }
    Ok(ndim as usize)
}

/// `i` is the first axis whose length is negative.
pub open spec fn first_negative(shape: Seq<i64>, i: int) -> bool {
    &&& 0 <= i < shape.len()
    &&& shape[i] < 0
    &&& forall|k: int| 0 <= k < i ==> 0 <= #[trigger] shape[k]
}

/// The refusal of a negative axis length.
pub open spec fn negative_axis(field: Seq<char>, i: int, d: int) -> FailureView {
    value_error(
        "detections."@ + field + ": shape["@ + nat_text(i as nat) + "] is negative ("@ + int_text(d)
            + ")"@,
    )
}

/// Check a tensor's shape and address, and put its description together.
pub fn open_cpu_tensor(
    shape: Vec<i64>,
    strides: Option<Vec<i64>>,
    dtype: DLDataType,
    data: usize,
    byte_offset: u64,
    field: &str,
) -> (r: Result<CpuTensorMeta, Failure>)
    requires
        strides matches Some(s) ==> s@.len() == shape@.len(),
    ensures
        match r {
            Ok(meta) => {
                &&& meta.wf()
                &&& meta.shape == shape && meta.strides == strides && meta.dtype == dtype
                &&& meta.data_addr == data + (byte_offset as usize)
            },
            Err(e) => {
                ||| exists|i: int|
                    first_negative(shape@, i) && e@ == #[trigger] negative_axis(
                        field@,
                        i,
                        shape@[i] as int,
                    )
                ||| {
                    &&& forall|i: int| 0 <= i < shape@.len() ==> 0 <= #[trigger] shape@[i]
                    &&& data + (byte_offset as usize) > usize::MAX
                    &&& e@ == value_error("detections."@ + field@ + ": byte_offset overflow"@)
                }
                ||| {
                    &&& forall|i: int| 0 <= i < shape@.len() ==> 0 <= #[trigger] shape@[i]
                    &&& data + (byte_offset as usize) == 0
                    &&& e@ == value_error("detections."@ + field@ + ": data pointer is null"@)
                }
            },
        },
{
    let mut i: usize = 0;
    while i < shape.len()
        invariant
            i <= shape.len(),
            forall|k: int| 0 <= k < i ==> 0 <= #[trigger] shape@[k],
        decreases shape.len() - i,
    {
        let d: i64 = shape[i];
        if d < 0 {
            let mut m = String::from_str("detections.");
            m.append(field);
            m.append(": shape[");
            m.append(usize_text(i).as_str());
            m.append("] is negative (");
            m.append(i64_text(d).as_str());
            m.append(")");
            let e = Failure::value_error(m);
            proof {
                assert(first_negative(shape@, i as int));
                assert(e@ == negative_axis(field@, i as int, shape@[i as int] as int));
            }
            return Err(e);
        }
        i += 1;
    }
    match data.checked_add(byte_offset as usize) {
        None => {
            let mut m = String::from_str("detections.");
            m.append(field);
            m.append(": byte_offset overflow");
            Err(Failure::value_error(m))
        },
        Some(addr) => if addr == 0 {
            let mut m = String::from_str("detections.");
            m.append(field);
            m.append(": data pointer is null");
            Err(Failure::value_error(m))
        } else {
            Ok(CpuTensorMeta { shape, strides, dtype, data_addr: addr })
        },
    }
}

/// The name of an element type by its code and width.
pub open spec fn dtype_code_text(code: u8, bits: u8) -> Seq<char> {
    if code == DL_DTYPE_INT {
        "int"@ + nat_text(bits as nat)
    } else if code == DL_DTYPE_UINT {
        "uint"@ + nat_text(bits as nat)
    } else if code == DL_DTYPE_FLOAT {
        "float"@ + nat_text(bits as nat)
    } else if code == DL_DTYPE_BOOL {
        "bool"@
    } else {
        "dtype(code="@ + nat_text(code as nat) + ", bits="@ + nat_text(bits as nat) + ")"@
    }
}

/// The name of an element type, with its lanes where there is not one.
pub open spec fn dtype_text(dt: DLDataType) -> Seq<char> {
    if dt.lanes == 1 {
        dtype_code_text(dt.code, dt.bits)
    } else {
        dtype_code_text(dt.code, dt.bits) + " (lanes="@ + nat_text(dt.lanes as nat) + ")"@
    }
}

/// The name of an element type by its code and width.
pub fn describe_dtype_code(code: u8, bits: u8) -> (s: String)
    ensures
        s@ == dtype_code_text(code, bits),
{
    if code == DL_DTYPE_BOOL {
        return String::from_str("bool");
    }
    if code != DL_DTYPE_INT && code != DL_DTYPE_UINT && code != DL_DTYPE_FLOAT {
        let mut s = String::from_str("dtype(code=");
        s.append(u64_text(code as u64).as_str());
        s.append(", bits=");
        s.append(u64_text(bits as u64).as_str());
        s.append(")");
        return s;
    }
    let mut s = if code == DL_DTYPE_INT {
        String::from_str("int")
    } else if code == DL_DTYPE_UINT {
        String::from_str("uint")
    } else {
        String::from_str("float")
    };
    s.append(u64_text(bits as u64).as_str());
    s
}

/// The name of an element type, with its lanes where there is not one.
pub fn describe_dtype(dt: DLDataType) -> (s: String)
    ensures
        s@ == dtype_text(dt),
{
    let mut s = describe_dtype_code(dt.code, dt.bits);
    if dt.lanes != 1 {
        s.append(" (lanes=");
        s.append(u64_text(dt.lanes as u64).as_str());
        s.append(")");
    }
    s
}

/// The element type is the one asked for, in one lane.
pub open spec fn is_dtype(dt: DLDataType, code: u8, bits: u8) -> bool {
    dt.code == code && dt.bits == bits && dt.lanes == 1
}

/// The refusal of an element type other than the one asked for.
pub open spec fn dtype_refusal(
    dt: DLDataType,
    field: Seq<char>,
    code: u8,
    bits: u8,
) -> FailureView {
    type_error(
        "detections."@ + field + ": expected "@ + dtype_code_text(code, bits) + ", got "@
            + dtype_text(dt) + " (fix: pass cast_inputs=True at construction or call .astype(np."@
            + dtype_code_text(code, bits) + "))"@,
    )
}

/// Check that the elements are of the type asked for.
pub fn expect_dtype(meta: &CpuTensorMeta, field: &str, code: u8, bits: u8) -> (r: Result<
    (),
    Failure,
>)
    ensures
        r is Ok <==> is_dtype(meta.dtype, code, bits),
        r matches Err(e) ==> e@ == dtype_refusal(meta.dtype, field@, code, bits),
{
    if meta.dtype.code == code && meta.dtype.bits == bits && meta.dtype.lanes == 1 {
        return Ok(());
    }
    let want = describe_dtype_code(code, bits);
    let mut m = String::from_str("detections.");
    m.append(field);
    m.append(": expected ");
    m.append(want.as_str());
    m.append(", got ");
    m.append(describe_dtype(meta.dtype).as_str());
    m.append(" (fix: pass cast_inputs=True at construction or call .astype(np.");
    m.append(want.as_str());
    m.append("))");
    Err(Failure::type_error(m))
}

/// The elements are single bytes, boolean or unsigned.
pub open spec fn is_byte_dtype(dt: DLDataType) -> bool {
    dt.lanes == 1 && dt.bits == 8 && (dt.code == DL_DTYPE_BOOL || dt.code == DL_DTYPE_UINT)
}

/// The refusal of an element type other than a byte.
pub open spec fn byte_dtype_refusal(dt: DLDataType, field: Seq<char>) -> FailureView {
    type_error(
        "detections."@ + field + ": expected 2-D bool or uint8 array, got "@ + dtype_text(dt),
    )
}

/// Check that the elements are single bytes.
pub fn expect_byte_dtype(meta: &CpuTensorMeta, field: &str) -> (r: Result<(), Failure>)
    ensures
        r is Ok <==> is_byte_dtype(meta.dtype),
        r matches Err(e) ==> e@ == byte_dtype_refusal(meta.dtype, field@),
{
    if meta.dtype.lanes == 1 && meta.dtype.bits == 8 && (meta.dtype.code == DL_DTYPE_BOOL
        || meta.dtype.code == DL_DTYPE_UINT) {
        return Ok(());
    }
    let mut m = String::from_str("detections.");
    m.append(field);
    m.append(": expected 2-D bool or uint8 array, got ");
    m.append(describe_dtype(meta.dtype).as_str());
    Err(Failure::type_error(m))
}

/// The refusal of a number of axes other than the one asked for.
pub open spec fn ndim_refusal(shape: Seq<i64>, field: Seq<char>, expected: usize) -> FailureView {
    value_error(
        "detections."@ + field + ": expected "@ + nat_text(expected as nat) + "-D array, got "@
            + nat_text(shape.len()) + "-D (shape "@ + list_text(
            shape.map_values(|n: i64| n as int),
        ) + ")"@,
    )
}

/// Check the number of axes.
pub fn expect_ndim(meta: &CpuTensorMeta, field: &str, expected: usize) -> (r: Result<(), Failure>)
    ensures
        r is Ok <==> meta.shape@.len() == expected,
        r matches Err(e) ==> e@ == ndim_refusal(meta.shape@, field@, expected),
{
    if meta.shape.len() == expected {
        return Ok(());
    }
    let mut m = String::from_str("detections.");
    m.append(field);
    m.append(": expected ");
    m.append(usize_text(expected).as_str());
    m.append("-D array, got ");
    m.append(usize_text(meta.shape.len()).as_str());
    m.append("-D (shape ");
    m.append(i64_list_text(&meta.shape).as_str());
    m.append(")");
    Err(Failure::value_error(m))
}

/// The refusal of a shape whose product does not fit.
pub open spec fn overflow_refusal(field: Seq<char>) -> FailureView {
    value_error("detections."@ + field + ": shape product overflows usize"@)
}

/// The refusal of a shape whose product does not fit.
fn overflow_error(field: &str) -> (e: Failure)
    ensures
        e@ == overflow_refusal(field@),
{
    let mut m = String::from_str("detections.");
    m.append(field);
    m.append(": shape product overflows usize");
    Failure::value_error(m)
}

/// The length of a tensor's row-major slice of elements of `size` bytes, or
/// why it cannot be borrowed as one.
pub open spec fn view_length(meta: CpuTensorMeta, field: Seq<char>, size: usize) -> Result<
    usize,
    FailureView,
> {
    if !meta.contiguous(Order::C) {
        Err(
            type_error(
                "detections."@ + field + ": array is not C-contiguous \
             (fix: pass np.ascontiguousarray(arr))"@,
            ),
        )
    } else if meta.element_count() is None {
        Err(overflow_refusal(field))
    } else if size != meta.dtype.bits / 8 {
        Err(
            value_error(
                "detections."@ + field + ": internal dtype size mismatch ("@ + nat_text(
                    size as nat,
                ) + " vs "@ + nat_text((meta.dtype.bits / 8) as nat) + ")"@,
            ),
        )
    } else {
        Ok(meta.element_count()->0)
    }
}

/// The length of the slice of elements of `size` bytes that a tensor can be
/// borrowed as.
pub fn into_view(meta: &CpuTensorMeta, field: &str, size: usize) -> (r: Result<usize, Failure>)
    requires
        meta.wf(),
    ensures
        refused(r) == view_length(*meta, field@, size),
{
    if !is_contiguous(meta, Order::C) {
        let mut m = String::from_str("detections.");
        m.append(field);
        m.append(
            ": array is not C-contiguous \
             (fix: pass np.ascontiguousarray(arr))",
        );
        return Err(Failure::type_error(m));
    }
    let len: usize = match n_elements(meta) {
        Some(n) => n,
        None => return Err(overflow_error(field)),
    };
    let elem_bytes: usize = (meta.dtype.bits / 8) as usize;
    if size != elem_bytes {
        let mut m = String::from_str("detections.");
        m.append(field);
        m.append(": internal dtype size mismatch (");
        m.append(usize_text(size).as_str());
        m.append(" vs ");
        m.append(usize_text(elem_bytes).as_str());
        m.append(")");
        return Err(Failure::value_error(m));
    }
    Ok(len)
}

/// The length of an `(N, cols)` float64 tensor, or why it is refused.
pub open spec fn f64_2d(meta: CpuTensorMeta, field: Seq<char>, cols: usize) -> Result<
    usize,
    FailureView,
> {
    if !is_dtype(meta.dtype, DL_DTYPE_FLOAT, 64) {
        Err(dtype_refusal(meta.dtype, field, DL_DTYPE_FLOAT, 64))
    } else if meta.shape@.len() != 2 {
        Err(ndim_refusal(meta.shape@, field, 2))
    } else if meta.shape@[1] as usize != cols {
        Err(
            value_error(
                "detections."@ + field + ": expected shape (N, "@ + nat_text(cols as nat)
                    + "), got ("@ + int_text(meta.shape@[0] as int) + ", "@ + int_text(
                    meta.shape@[1] as int,
                ) + ")"@,
            ),
        )
    } else {
        view_length(meta, field, 8)
    }
}

/// Check an `(N, expected_cols)` float64 tensor and give the length of its
/// slice.
pub fn extract_f64_2d(meta: &CpuTensorMeta, field: &str, expected_cols: usize) -> (r: Result<
    usize,
    Failure,
>)
    requires
        meta.wf(),
    ensures
        refused(r) == f64_2d(*meta, field@, expected_cols),
{
    if let Err(e) = expect_dtype(meta, field, DL_DTYPE_FLOAT, 64) {
        return Err(e);
    }
    if let Err(e) = expect_ndim(meta, field, 2) {
        return Err(e);
    }
    if meta.shape[1] as usize != expected_cols {
        let mut m = String::from_str("detections.");
        m.append(field);
        m.append(": expected shape (N, ");
        m.append(usize_text(expected_cols).as_str());
        m.append("), got (");
        m.append(i64_text(meta.shape[0]).as_str());
        m.append(", ");
        m.append(i64_text(meta.shape[1]).as_str());
        m.append(")");
        return Err(Failure::value_error(m));
    }
    into_view(meta, field, 8)
}

/// The length of an `(N, K, 3)` float64 tensor and its K, or why it is
/// refused.
pub open spec fn f64_3d_kp(meta: CpuTensorMeta, field: Seq<char>) -> Result<
    (usize, usize),
    FailureView,
> {
    if !is_dtype(meta.dtype, DL_DTYPE_FLOAT, 64) {
        Err(dtype_refusal(meta.dtype, field, DL_DTYPE_FLOAT, 64))
    } else if meta.shape@.len() != 3 {
        Err(ndim_refusal(meta.shape@, field, 3))
    } else if meta.shape@[2] != 3 {
        Err(
            value_error(
                "detections."@ + field + ": expected shape (N, K, 3), got ("@ + int_text(
                    meta.shape@[0] as int,
                ) + ", "@ + int_text(meta.shape@[1] as int) + ", "@ + int_text(
                    meta.shape@[2] as int,
                ) + ")"@,
            ),
        )
    } else {
        match view_length(meta, field, 8) {
            Ok(len) => Ok((len, meta.shape@[1] as usize)),
            Err(e) => Err(e),
        }
    }
}

/// Check an `(N, K, 3)` float64 tensor and give the length of its slice and
/// its K.
pub fn extract_f64_3d_kp(meta: &CpuTensorMeta, field: &str) -> (r: Result<(usize, usize), Failure>)
    requires
        meta.wf(),
    ensures
        refused(r) == f64_3d_kp(*meta, field@),
{
    if let Err(e) = expect_dtype(meta, field, DL_DTYPE_FLOAT, 64) {
        return Err(e);
    }
    if let Err(e) = expect_ndim(meta, field, 3) {
        return Err(e);
    }
    if meta.shape[2] != 3 {
        let mut m = String::from_str("detections.");
        m.append(field);
        m.append(": expected shape (N, K, 3), got (");
        m.append(i64_text(meta.shape[0]).as_str());
        m.append(", ");
        m.append(i64_text(meta.shape[1]).as_str());
        m.append(", ");
        m.append(i64_text(meta.shape[2]).as_str());
        m.append(")");
        return Err(Failure::value_error(m));
    }
    let k: usize = meta.shape[1] as usize;
    match into_view(meta, field, 8) {
        Ok(len) => Ok((len, k)),
        Err(e) => Err(e),
    }
}

/// The length of a one-axis tensor of a given element type, or why it is
/// refused.
pub open spec fn one_d(meta: CpuTensorMeta, field: Seq<char>, code: u8, bits: u8) -> Result<
    usize,
    FailureView,
> {
    if !is_dtype(meta.dtype, code, bits) {
        Err(dtype_refusal(meta.dtype, field, code, bits))
    } else if meta.shape@.len() != 1 {
        Err(ndim_refusal(meta.shape@, field, 1))
    } else {
        view_length(meta, field, (bits / 8) as usize)
    }
}

/// Check a one-axis tensor of a given element type and give the length of
/// its slice.
fn extract_1d(meta: &CpuTensorMeta, field: &str, code: u8, bits: u8) -> (r: Result<
    usize,
    Failure,
>)
    requires
        meta.wf(),
    ensures
        refused(r) == one_d(*meta, field@, code, bits),
{
    if let Err(e) = expect_dtype(meta, field, code, bits) {
        return Err(e);
    }
    if let Err(e) = expect_ndim(meta, field, 1) {
        return Err(e);
    }
    into_view(meta, field, (bits / 8) as usize)
}

/// Check an `(N,)` float64 tensor and give the length of its slice.
pub fn extract_f64_1d(meta: &CpuTensorMeta, field: &str) -> (r: Result<usize, Failure>)
    requires
        meta.wf(),
    ensures
        refused(r) == one_d(*meta, field@, DL_DTYPE_FLOAT, 64),
{
    extract_1d(meta, field, DL_DTYPE_FLOAT, 64)
}

/// Check an `(N,)` int64 tensor and give the length of its slice.
pub fn extract_i64_1d(meta: &CpuTensorMeta, field: &str) -> (r: Result<usize, Failure>)
    requires
        meta.wf(),
    ensures
        refused(r) == one_d(*meta, field@, DL_DTYPE_INT, 64),
{
    extract_1d(meta, field, DL_DTYPE_INT, 64)
}

/// Check an `(N,)` uint32 tensor and give the length of its slice.
pub fn extract_u32_1d(meta: &CpuTensorMeta, field: &str) -> (r: Result<usize, Failure>)
    requires
        meta.wf(),
    ensures
        refused(r) == one_d(*meta, field@, DL_DTYPE_UINT, 32),
{
    extract_1d(meta, field, DL_DTYPE_UINT, 32)
}

/// The length of an `(N,)` tensor of boolean or unsigned bytes, or why it is
/// refused.
pub open spec fn byte_1d(meta: CpuTensorMeta, field: Seq<char>) -> Result<usize, FailureView> {
    if !is_byte_dtype(meta.dtype) {
        Err(byte_dtype_refusal(meta.dtype, field))
    } else if meta.shape@.len() != 1 {
        Err(ndim_refusal(meta.shape@, field, 1))
    } else {
        view_length(meta, field, 1)
    }
}

/// Check an `(N,)` tensor of boolean or unsigned bytes and give the length
/// of its slice.
pub fn extract_u8_or_bool_1d(meta: &CpuTensorMeta, field: &str) -> (r: Result<usize, Failure>)
    requires
        meta.wf(),
    ensures
        refused(r) == byte_1d(*meta, field@),
{
    if let Err(e) = expect_byte_dtype(meta, field) {
        return Err(e);
    }
    if let Err(e) = expect_ndim(meta, field, 1) {
        return Err(e);
    }
    into_view(meta, field, 1)
}

/// A bitmask that can be borrowed as bytes.
#[derive(Clone, Copy, Debug, PartialEq, Eq, Structural)]
pub struct MaskView {
    /// The number of bytes.
    pub len: usize,
    pub h: u32,
    pub w: u32,
    /// The layout: row-major where the mask is both.
    pub order: Order,
}

/// The layout of a mask: row-major first.
pub open spec fn mask_order(meta: CpuTensorMeta) -> Option<Order> {
    if meta.contiguous(Order::C) {
        Some(Order::C)
    } else if meta.contiguous(Order::F) {
        Some(Order::F)
    } else {
        None
    }
}

/// The refusal of a mask whose bytes do not lie one after the other.
pub open spec fn layout_refusal(field: Seq<char>) -> FailureView {
    type_error(
        "detections."@ + field + ": array is not contiguous \
             (fix: pass np.ascontiguousarray(arr) or np.asfortranarray(arr))"@,
    )
}

/// The refusal of a mask whose bytes do not lie one after the other.
fn layout_error(field: &str) -> (e: Failure)
    ensures
        e@ == layout_refusal(field@),
{
    let mut m = String::from_str("detections.");
    m.append(field);
    m.append(
        ": array is not contiguous \
             (fix: pass np.ascontiguousarray(arr) or np.asfortranarray(arr))",
    );
    Failure::type_error(m)
}

/// A two-axis tensor of bytes as a mask, or why it is refused.
pub open spec fn mask_2d(meta: CpuTensorMeta, field: Seq<char>) -> Result<MaskView, FailureView> {
    if !is_byte_dtype(meta.dtype) {
        Err(byte_dtype_refusal(meta.dtype, field))
    } else if meta.shape@.len() != 2 {
        Err(ndim_refusal(meta.shape@, field, 2))
    } else if mask_order(meta) is None {
        Err(layout_refusal(field))
    } else if meta.shape@[0] > u32::MAX {
        Err(
            value_error(
                "detections."@ + field + ": height "@ + int_text(meta.shape@[0] as int)
                    + " does not fit in u32"@,
            ),
        )
    } else if meta.shape@[1] > u32::MAX {
        Err(
            value_error(
                "detections."@ + field + ": width "@ + int_text(meta.shape@[1] as int)
                    + " does not fit in u32"@,
            ),
        )
    } else if meta.element_count() is None {
        Err(overflow_refusal(field))
    } else {
        Ok(
            (MaskView {
                len: meta.element_count()->0,
                h: meta.shape@[0] as u32,
                w: meta.shape@[1] as u32,
                order: mask_order(meta)->0,
            }),
        )
    }
}

/// Check a two-axis tensor of bytes. A mask that is not column-major has to
/// be copied into that layout before it is read.
pub fn open_u8_or_bool_2d(meta: &CpuTensorMeta, field: &str) -> (r: Result<MaskView, Failure>)
    requires
        meta.wf(),
    ensures
        refused(r) == mask_2d(*meta, field@),
{
    if let Err(e) = expect_byte_dtype(meta, field) {
        return Err(e);
    }
    if let Err(e) = expect_ndim(meta, field, 2) {
        return Err(e);
    }
    let mut m = String::from_str("detections.");
    m.append(field);
    let order = if is_contiguous(meta, Order::C) {
        Order::C
    } else if is_contiguous(meta, Order::F) {
        Order::F
    } else {
        return Err(layout_error(field));
    };
    let h: i64 = meta.shape[0];
    let w: i64 = meta.shape[1];
    if h > u32::MAX as i64 {
        m.append(": height ");
        m.append(i64_text(h).as_str());
        m.append(" does not fit in u32");
        return Err(Failure::value_error(m));
    }
    if w > u32::MAX as i64 {
        m.append(": width ");
        m.append(i64_text(w).as_str());
        m.append(" does not fit in u32");
        return Err(Failure::value_error(m));
    }
    match n_elements(meta) {
        None => Err(overflow_error(field)),
        Some(len) => Ok(MaskView { len, h: h as u32, w: w as u32, order }),
    }
}

/// A mask that was copied into column-major layout, or why it is refused. The
/// two layouts are one where at most one axis has a length other than one and
/// where there are no bytes.
pub open spec fn copied_mask(meta: CpuTensorMeta, field: Seq<char>) -> Result<
    MaskView,
    FailureView,
> {
    match mask_2d(meta, field) {
        Err(e) => Err(e),
        Ok(view) => if meta.contiguous(Order::F) || one_axis(meta.shape@) || view.len == 0 {
            Ok(view)
        } else {
            Err(layout_refusal(field))
        },
    }
}

/// Check a mask that was copied: its bytes have to lie in column-major order.
pub fn open_mask_copy(meta: &CpuTensorMeta, field: &str) -> (r: Result<MaskView, Failure>)
    requires
        meta.wf(),
    ensures
        refused(r) == copied_mask(*meta, field@),
{
    match open_u8_or_bool_2d(meta, field) {
        Err(e) => Err(e),
        Ok(view) => if is_contiguous(meta, Order::F) || has_one_axis(&meta.shape) || view.len == 0 {
            Ok(view)
        } else {
            Err(layout_error(field))
        },
    }
}

/// One position on each axis.
pub open spec fn valid_index(shape: Seq<i64>, idx: Seq<int>) -> bool {
    &&& idx.len() == shape.len()
    &&& forall|i: int| 0 <= i < shape.len() ==> 0 <= #[trigger] idx[i] < shape[i]
}

/// Where the strides put an element, counting the axes from `i` on.
pub open spec fn strided_offset(strides: Seq<i64>, idx: Seq<int>, i: int) -> int
    decreases idx.len() - i,
{
    if i < 0 || i >= idx.len() {
        0
    } else {
        idx[i] * strides[i] + strided_offset(strides, idx, i + 1)
    }
}

/// The rank of an element in row-major order, counting the axes from `i` on.
pub open spec fn row_rank(shape: Seq<i64>, idx: Seq<int>, i: int) -> int
    decreases idx.len() - i,
{
    if i < 0 || i >= idx.len() {
        0
    } else {
        idx[i] * suffix_product(shape, i + 1) + row_rank(shape, idx, i + 1)
    }
}

/// The rank of an element in column-major order, counting the first `i`
/// axes.
pub open spec fn column_rank(shape: Seq<i64>, idx: Seq<int>, i: int) -> int
    decreases i,
{
    if i <= 0 {
        0
    } else {
        column_rank(shape, idx, i - 1) + idx[i - 1] * prefix_product(shape, i - 1)
    }
}

/// Over the axes from `i` on: the strides of a row-major buffer put an
/// element at its rank, and the rank is within the buffer.
proof fn lemma_row_offset(shape: Seq<i64>, strides: Seq<i64>, idx: Seq<int>, i: int)
    requires
        row_major(shape, strides),
        strides.len() == shape.len(),
        valid_index(shape, idx),
        0 <= i <= shape.len(),
    ensures
        strided_offset(strides, idx, i) == row_rank(shape, idx, i),
        0 <= row_rank(shape, idx, i) < suffix_product(shape, i),
    decreases shape.len() - i,
{
    if i < shape.len() {
        lemma_row_offset(shape, strides, idx, i + 1);
        let a = idx[i];
        let p = suffix_product(shape, i + 1);
        assert(0 <= a < shape[i]);
        assert(strides[i] == p);
        let rest = row_rank(shape, idx, i + 1);
        assert(0 <= a * p + rest < shape[i] * p) by (nonlinear_arith)
            requires
                0 <= a < shape[i],
                0 <= rest < p,
        ;
    }
}

/// A row-major buffer holds each element at its own place: the strides put
/// the element of an index at its row-major rank, which is below the number
/// of elements.
pub proof fn law_row_major_places(shape: Seq<i64>, strides: Seq<i64>, idx: Seq<int>)
    requires
        row_major(shape, strides),
        strides.len() == shape.len(),
        valid_index(shape, idx),
    ensures
        strided_offset(strides, idx, 0) == row_rank(shape, idx, 0),
        0 <= row_rank(shape, idx, 0) < suffix_product(shape, 0),
{
    lemma_row_offset(shape, strides, idx, 0);
}

/// Over the axes from `i` on, equal ranks come from equal positions.
proof fn lemma_row_rank_injective(
    shape: Seq<i64>,
    strides: Seq<i64>,
    a: Seq<int>,
    b: Seq<int>,
    i: int,
)
    requires
        row_major(shape, strides),
        strides.len() == shape.len(),
        valid_index(shape, a),
        valid_index(shape, b),
        0 <= i <= shape.len(),
        row_rank(shape, a, i) == row_rank(shape, b, i),
    ensures
        forall|k: int| i <= k < shape.len() ==> a[k] == b[k],
    decreases shape.len() - i,
{
    if i < shape.len() {
        lemma_row_offset(shape, strides, a, i + 1);
        lemma_row_offset(shape, strides, b, i + 1);
        let p = suffix_product(shape, i + 1);
        let (ra, rb) = (row_rank(shape, a, i + 1), row_rank(shape, b, i + 1));
        let (x, y) = (a[i], b[i]);
        assert(x == y) by (nonlinear_arith)
            requires
                x * p + ra == y * p + rb,
                0 <= ra < p,
                0 <= rb < p,
        ;
        lemma_row_rank_injective(shape, strides, a, b, i + 1);
    }
}

/// No two elements of a row-major buffer share a place.
pub proof fn law_row_major_places_distinct(
    shape: Seq<i64>,
    strides: Seq<i64>,
    a: Seq<int>,
    b: Seq<int>,
)
    requires
        row_major(shape, strides),
        strides.len() == shape.len(),
        valid_index(shape, a),
        valid_index(shape, b),
        strided_offset(strides, a, 0) == strided_offset(strides, b, 0),
    ensures
        a == b,
{
    lemma_row_offset(shape, strides, a, 0);
    lemma_row_offset(shape, strides, b, 0);
    lemma_row_rank_injective(shape, strides, a, b, 0);
    assert(a =~= b);
}

/// The axes from `i` on add nothing where all their lengths are one.
proof fn lemma_ones_after(shape: Seq<i64>, idx: Seq<int>, i: int)
    requires
        valid_index(shape, idx),
        0 <= i <= shape.len(),
        forall|k: int| i <= k < shape.len() ==> #[trigger] shape[k] == 1,
    ensures
        suffix_product(shape, i) == 1,
        row_rank(shape, idx, i) == 0,
    decreases shape.len() - i,
{
    if i < shape.len() {
        lemma_ones_after(shape, idx, i + 1);
        assert(0 <= idx[i] < shape[i]);
        assert(shape[i] == 1);
    }
}

/// The first `i` axes add nothing where all their lengths are one.
proof fn lemma_ones_before(shape: Seq<i64>, idx: Seq<int>, i: int)
    requires
        valid_index(shape, idx),
        0 <= i <= shape.len(),
        forall|k: int| 0 <= k < i ==> #[trigger] shape[k] == 1,
    ensures
        prefix_product(shape, i) == 1,
        column_rank(shape, idx, i) == 0,
    decreases i,
{
    if i > 0 {
        lemma_ones_before(shape, idx, i - 1);
        assert(0 <= idx[i - 1] < shape[i - 1]);
        assert(shape[i - 1] == 1);
    }
}

/// With one axis `j` other than one, both ranks are the position on it.
proof fn lemma_single_axis(shape: Seq<i64>, idx: Seq<int>, j: int, i: int, n: int)
    requires
        valid_index(shape, idx),
        0 <= i <= j < n <= shape.len(),
        forall|k: int| 0 <= k < shape.len() && k != j ==> #[trigger] shape[k] == 1,
    ensures
        row_rank(shape, idx, i) == idx[j],
        column_rank(shape, idx, n) == idx[j],
    decreases (j - i) + (n - j),
{
    if i < j {
        lemma_single_axis(shape, idx, j, i + 1, n);
        assert(0 <= idx[i] < shape[i]);
        assert(idx[i] * suffix_product(shape, i + 1) == 0) by (nonlinear_arith)
            requires
                idx[i] == 0,
        ;
    } else if n > j + 1 {
        lemma_single_axis(shape, idx, j, i, n - 1);
        assert(0 <= idx[n - 1] < shape[n - 1]);
        assert(idx[n - 1] * prefix_product(shape, n - 1) == 0) by (nonlinear_arith)
            requires
                idx[n - 1] == 0,
        ;
    } else {
        lemma_ones_after(shape, idx, j + 1);
        lemma_ones_before(shape, idx, j);
        assert(idx[j] * 1 == idx[j]);
    }
}

/// Where at most one axis has a length other than one, the row-major and the
/// column-major order of the elements are the same.
pub proof fn law_orders_coincide(shape: Seq<i64>, idx: Seq<int>)
    requires
        one_axis(shape),
        valid_index(shape, idx),
    ensures
        row_rank(shape, idx, 0) == column_rank(shape, idx, shape.len() as int),
{
    if exists|j: int| 0 <= j < shape.len() && #[trigger] shape[j] != 1 {
        let j = choose|j: int| 0 <= j < shape.len() && #[trigger] shape[j] != 1;
        lemma_single_axis(shape, idx, j, 0, shape.len() as int);
    } else {
        lemma_ones_after(shape, idx, 0);
        lemma_ones_before(shape, idx, shape.len() as int);
    }
}

/// The two ways of multiplying the axis lengths agree.
proof fn lemma_products_agree(shape: Seq<i64>, i: int)
    requires
        0 <= i <= shape.len(),
    ensures
        prefix_product(shape, i) * suffix_product(shape, i) == suffix_product(shape, 0),
    decreases i,
{
    if i > 0 {
        lemma_products_agree(shape, i - 1);
        let (p, d, q) = (
            prefix_product(shape, i - 1),
            shape[i - 1] as int,
            suffix_product(shape, i),
        );
        assert((p * d) * q == p * (d * q)) by (nonlinear_arith);
    } else {
        assert(1 * suffix_product(shape, 0) == suffix_product(shape, 0));
    }
}

/// The length handed out for a contiguous tensor is the number of places
/// that its elements take.
pub proof fn law_length_is_number_of_places(meta: CpuTensorMeta, field: Seq<char>, size: usize)
    requires
        meta.wf(),
        view_length(meta, field, size) is Ok,
    ensures
        view_length(meta, field, size)->Ok_0 == suffix_product(meta.shape@, 0),
{
    let n = meta.shape@.len() as int;
    lemma_products_agree(meta.shape@, n);
    assert(prefix_product(meta.shape@, n) <= usize::MAX);
    lemma_prefix_nonneg(meta.shape@, n);
    assert(prefix_product(meta.shape@, n) * 1 == prefix_product(meta.shape@, n));
}

// ---------------------------------------------------------------------------
// What is taken, and as what
// ---------------------------------------------------------------------------

/// The devices that are read are the CPU and its pinned memory.
pub proof fn law_cpu_devices(device_type: int)
    ensures
        is_cpu(device_type) <==> device_type == 1 || device_type == 3,
{
}

/// A header is taken exactly where it is on such a device and has from none to
/// eight axes, and has the axes that it says.
pub proof fn law_headers_are_taken(device_type: i32, ndim: i32, field: Seq<char>)
    ensures
        header_axes(device_type, ndim, field) is Ok <==> (device_type == 1 || device_type == 3) && 0
            <= ndim <= 8,
        header_axes(device_type, ndim, field) matches Ok(n) ==> n == ndim,
{
}

/// The two names of a capsule promise the two layouts, and no other name
/// promises any.
pub proof fn law_capsules_go_by_their_name(name: Seq<char>, field: Seq<char>)
    ensures
        (capsule_layout(Some(name), field) matches Ok(l) && l is Unversioned) <==> name
            == "dltensor"@,
        (capsule_layout(Some(name), field) matches Ok(l) && l is Versioned) <==> name
            == "dltensor_versioned"@,
        capsule_layout(None, field) is Err,
{
    reveal_strlit("dltensor");
    reveal_strlit("dltensor_versioned");
    assert("dltensor"@.len() != "dltensor_versioned"@.len());
}

/// The number of elements is the product of the lengths.
proof fn lemma_small_products(shape: Seq<i64>)
    ensures
        shape.len() == 1 ==> prefix_product(shape, 1) == shape[0],
        shape.len() == 2 ==> prefix_product(shape, 2) == shape[0] * shape[1],
        shape.len() == 3 ==> prefix_product(shape, 3) == shape[0] * shape[1] * shape[2],
{
    reveal_with_fuel(prefix_product, 4);
    if shape.len() >= 1 {
        assert(1 * shape[0] == shape[0]);
    }
}

/// A tensor that counts as so many elements has no negative length, and as
/// many elements as its lengths multiply to.
pub proof fn law_elements_are_counted(meta: CpuTensorMeta, n: usize)
    requires
        meta.element_count() == Some(n),
    ensures
        meta.shape@.len() == 0 ==> n == 1,
        meta.shape@.len() == 1 ==> n == meta.shape@[0],
        meta.shape@.len() == 2 ==> n == meta.shape@[0] * meta.shape@[1],
        meta.shape@.len() == 3 ==> n == meta.shape@[0] * meta.shape@[1] * meta.shape@[2],
        forall|i: int| 0 <= i < meta.shape@.len() ==> 0 <= #[trigger] meta.shape@[i] <= usize::MAX,
{
    lemma_small_products(meta.shape@);
    lemma_prefix_nonneg(meta.shape@, meta.shape@.len() as int);
    assert(prefix_product(meta.shape@, meta.shape@.len() as int) <= usize::MAX);
}

/// A slice is handed out only of a row-major tensor whose elements have the
/// size asked for, and it is as long as the tensor has elements.
pub proof fn law_slices_hold_every_element(meta: CpuTensorMeta, field: Seq<char>, size: usize)
    ensures
        view_length(meta, field, size) matches Ok(n) ==> meta.contiguous(Order::C)
            && meta.element_count() == Some(n) && size == meta.dtype.bits / 8,
        meta.contiguous(Order::C) && meta.element_count() is Some && size == meta.dtype.bits / 8
            ==> view_length(meta, field, size) is Ok,
        meta.strides is None ==> meta.contiguous(Order::C),
{
}

/// Columns of numbers are of the type asked for, in one lane, and have one
/// axis; the slice has one number for each place.
pub proof fn law_columns_are_as_asked_for(meta: CpuTensorMeta, field: Seq<char>)
    ensures
        one_d(meta, field, DL_DTYPE_FLOAT, 64) matches Ok(n) ==> meta.dtype == (DLDataType {
            code: 2,
            bits: 64,
            lanes: 1,
        }) && meta.shape@.len() == 1 && n == meta.shape@[0],
        one_d(meta, field, DL_DTYPE_INT, 64) matches Ok(n) ==> meta.dtype == (DLDataType {
            code: 0,
            bits: 64,
            lanes: 1,
        }) && meta.shape@.len() == 1 && n == meta.shape@[0],
        one_d(meta, field, DL_DTYPE_UINT, 32) matches Ok(n) ==> meta.dtype == (DLDataType {
            code: 1,
            bits: 32,
            lanes: 1,
        }) && meta.shape@.len() == 1 && n == meta.shape@[0],
        byte_1d(meta, field) matches Ok(n) ==> (meta.dtype.code == 6 || meta.dtype.code == 1)
            && meta.dtype.bits == 8 && meta.dtype.lanes == 1 && meta.shape@.len() == 1 && n
            == meta.shape@[0],
{
    if meta.element_count() is Some {
        law_elements_are_counted(meta, meta.element_count()->0);
    }
}

/// A table of floats has the columns asked for, and its slice has that many
/// numbers for each row.
pub proof fn law_float_tables_are_as_asked_for(meta: CpuTensorMeta, field: Seq<char>, cols: usize)
    ensures
        f64_2d(meta, field, cols) matches Ok(n) ==> meta.dtype == (DLDataType {
            code: 2,
            bits: 64,
            lanes: 1,
        }) && meta.shape@.len() == 2 && meta.shape@[1] == cols && n == meta.shape@[0] * cols,
{
    if meta.element_count() is Some {
        law_elements_are_counted(meta, meta.element_count()->0);
    }
}

/// A block of keypoints has three numbers for each point, and the number of
/// points that is told is that of its middle axis.
pub proof fn law_keypoint_blocks_are_as_asked_for(meta: CpuTensorMeta, field: Seq<char>)
    ensures
        f64_3d_kp(meta, field) matches Ok((n, k)) ==> meta.dtype == (DLDataType {
            code: 2,
            bits: 64,
            lanes: 1,
        }) && meta.shape@.len() == 3 && meta.shape@[2] == 3 && k == meta.shape@[1] && n
            == meta.shape@[0] * k * 3,
{
    if meta.element_count() is Some {
        law_elements_are_counted(meta, meta.element_count()->0);
    }
}

/// A mask has the height of its first axis and the width of its second, one
/// byte for each pixel, and is read row by row wherever it can be.
pub proof fn law_masks_are_as_they_lie(meta: CpuTensorMeta, field: Seq<char>)
    ensures
        mask_2d(meta, field) matches Ok(m) ==> {
            &&& (meta.dtype.code == 6 || meta.dtype.code == 1)
            &&& meta.dtype.bits == 8
            &&& meta.dtype.lanes == 1
            &&& meta.shape@.len() == 2
            &&& m.h == meta.shape@[0]
            &&& m.w == meta.shape@[1]
            &&& m.len == m.h * m.w
            &&& m.order is C <==> meta.contiguous(Order::C)
            &&& m.order is F ==> meta.contiguous(Order::F)
        },
        copied_mask(meta, field) matches Ok(m) ==> mask_2d(meta, field) == Ok::<
            MaskView,
            FailureView,
        >(m) && (meta.contiguous(Order::F) || one_axis(meta.shape@) || m.len == 0),
{
    if meta.element_count() is Some {
        law_elements_are_counted(meta, meta.element_count()->0);
    }
}

/// A plain array without strides, of the type and the shape asked for, is
/// taken.
pub proof fn law_plain_arrays_are_taken(meta: CpuTensorMeta, field: Seq<char>)
    requires
        meta.strides is None,
        meta.element_count() is Some,
    ensures
        meta.dtype == (DLDataType { code: 2, bits: 64, lanes: 1 }) && meta.shape@.len() == 1
            ==> one_d(meta, field, DL_DTYPE_FLOAT, 64) is Ok,
        meta.dtype == (DLDataType { code: 0, bits: 64, lanes: 1 }) && meta.shape@.len() == 1
            ==> one_d(meta, field, DL_DTYPE_INT, 64) is Ok,
        meta.dtype == (DLDataType { code: 1, bits: 32, lanes: 1 }) && meta.shape@.len() == 1
            ==> one_d(meta, field, DL_DTYPE_UINT, 32) is Ok,
        meta.dtype == (DLDataType { code: 2, bits: 64, lanes: 1 }) && meta.shape@.len() == 2
            && meta.shape@[1] == 4 ==> f64_2d(meta, field, 4) is Ok,
        meta.dtype == (DLDataType { code: 2, bits: 64, lanes: 1 }) && meta.shape@.len() == 3
            && meta.shape@[2] == 3 ==> f64_3d_kp(meta, field) is Ok,
        meta.dtype == (DLDataType { code: 6, bits: 8, lanes: 1 }) && meta.shape@.len() == 1
            ==> byte_1d(meta, field) is Ok,
        meta.dtype == (DLDataType { code: 1, bits: 8, lanes: 1 }) && meta.shape@.len() == 2
            && meta.shape@[0] <= u32::MAX && meta.shape@[1] <= u32::MAX ==> mask_2d(
            meta,
            field,
        ) is Ok,
{
}

/// An element type has the name of its sort and its width.
pub proof fn law_types_have_their_names(bits: u8)
    ensures
        dtype_code_text(0, bits) == "int"@ + nat_text(bits as nat),
        dtype_code_text(1, bits) == "uint"@ + nat_text(bits as nat),
        dtype_code_text(2, bits) == "float"@ + nat_text(bits as nat),
        dtype_code_text(6, bits) == "bool"@,
        dtype_text((DLDataType { code: 2, bits, lanes: 1 })) == "float"@ + nat_text(bits as nat),
{
}

/// A row-major table of two axes steps by its width from row to row and by one
/// within a row; a column-major one steps by one and by its height.
pub proof fn law_tables_step_by_their_sides(h: i64, w: i64, strides: Seq<i64>)
    requires
        h > 0,
        w > 0,
        strides.len() == 2,
        h * w <= i64::MAX,
    ensures
        row_major(seq![h, w], strides) <==> strides[0] == w && strides[1] == 1,
        column_major(seq![h, w], strides) <==> strides[0] == 1 && strides[1] == h,
{
    let shape = seq![h, w];
    reveal_with_fuel(suffix_product, 4);
    reveal_with_fuel(prefix_product, 4);
    assert(suffix_product(shape, 2) == 1);
    assert(suffix_product(shape, 1) == w * 1);
    assert(suffix_product(shape, 0) == h * (w * 1));
    assert(prefix_product(shape, 0) == 1);
    assert(prefix_product(shape, 1) == 1 * h);
    assert(prefix_product(shape, 2) == (1 * h) * w);
    assert(h * w >= 0) by (nonlinear_arith)
        requires
            h > 0,
            w > 0,
    ;
    if row_major(shape, strides) {
        assert(strides[0] == suffix_product(shape, 1));
        assert(strides[1] == suffix_product(shape, 2));
    }
    if column_major(shape, strides) {
        assert(strides[0] == prefix_product(shape, 0));
        assert(strides[1] == prefix_product(shape, 1));
    }
}

/// The axis that a refusal is about is the first whose length is negative, and
/// there is one such axis only.
pub proof fn law_first_negative_axis_is_told(shape: Seq<i64>, i: int, j: int)
    requires
        first_negative(shape, i),
    ensures
        0 <= i < shape.len(),
        shape[i] < 0,
        0 <= j < i ==> shape[j] >= 0,
        first_negative(shape, j) ==> i == j,
{
    if first_negative(shape, j) {
        if j < i {
            assert(0 <= shape[j]);
        }
        if i < j {
            assert(0 <= shape[i]);
        }
    }
}

} // verus!
