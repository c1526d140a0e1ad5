//! The shape of the buffers that are bound to the columns of a result set.
use crate::error::Error;
use vstd::prelude::*;

verus! {

/// The shape of the buffer bound to one column: what its elements are, how long one of them
/// can get where that varies, and whether an indicator tells a NULL from a value.
#[derive(Debug, Clone, Copy, PartialEq, Eq, Structural)]
pub enum BufferDesc {
    /// Binary values of up to `max_bytes` bytes.
    Binary { max_bytes: usize },
    /// Narrow text of up to `max_str_len` bytes, the terminating zero not counted.
    Text { max_str_len: usize },
    /// UTF-16 text of up to `max_str_len` 16 bit units, the terminating zero not counted.
    WText { max_str_len: usize },
    F64 { nullable: bool },
    F32 { nullable: bool },
    /// Year, month and day.
    Date { nullable: bool },
    /// Year, month, day, hour, minute, second and a fraction in nanoseconds.
    Timestamp { nullable: bool },
    I8 { nullable: bool },
    I16 { nullable: bool },
    I32 { nullable: bool },
    I64 { nullable: bool },
    U8 { nullable: bool },
    /// Zero or one.
    Bit { nullable: bool },
}

impl BufferDesc {
    /// True where every element has its own indicator, so that the buffer can hold a NULL.
    /// Elements of varying length always have one: it also tells their length.
    pub open spec fn spec_has_indicator(self) -> bool {
        match self {
            BufferDesc::Binary { .. } | BufferDesc::Text { .. } | BufferDesc::WText { .. } => true,
            BufferDesc::F64 { nullable }
            | BufferDesc::F32 { nullable }
            | BufferDesc::Date { nullable }
            | BufferDesc::Timestamp { nullable }
            | BufferDesc::I8 { nullable }
            | BufferDesc::I16 { nullable }
            | BufferDesc::I32 { nullable }
            | BufferDesc::I64 { nullable }
            | BufferDesc::U8 { nullable }
            | BufferDesc::Bit { nullable } => nullable,
        }
    }

    /// The number of bytes that the value of one row takes in the buffer, the terminating
    /// zero of a text counted.
    pub open spec fn spec_bytes_per_value(self) -> nat {
        match self {
            BufferDesc::Binary { max_bytes } => max_bytes as nat,
            BufferDesc::Text { max_str_len } => (max_str_len + 1) as nat,
            BufferDesc::WText { max_str_len } => ((max_str_len + 1) * 2) as nat,
            BufferDesc::F64 { .. } | BufferDesc::I64 { .. } => 8,
            BufferDesc::F32 { .. } | BufferDesc::I32 { .. } => 4,
            BufferDesc::Date { .. } => 6,
            BufferDesc::Timestamp { .. } => 16,
            BufferDesc::I16 { .. } => 2,
            BufferDesc::I8 { .. } | BufferDesc::U8 { .. } | BufferDesc::Bit { .. } => 1,
        }
    }

    #[verifier::when_used_as_spec(spec_has_indicator)]
    pub fn has_indicator(self) -> (r: bool)
        ensures
            r == self.spec_has_indicator(),
    {
        match self {
            BufferDesc::Binary { .. } | BufferDesc::Text { .. } | BufferDesc::WText { .. } => true,
            BufferDesc::F64 { nullable }
            | BufferDesc::F32 { nullable }
            | BufferDesc::Date { nullable }
            | BufferDesc::Timestamp { nullable }
            | BufferDesc::I8 { nullable }
            | BufferDesc::I16 { nullable }
            | BufferDesc::I32 { nullable }
            | BufferDesc::I64 { nullable }
            | BufferDesc::U8 { nullable }
            | BufferDesc::Bit { nullable } => nullable,
        }
    }

    /// The number of bytes that the value of one row takes in the buffer, `None` where that
    /// number is beyond `usize`.
    pub fn bytes_per_value(self) -> (r: Option<usize>)
        ensures
            r is Some <==> self.spec_bytes_per_value() <= usize::MAX,
            r is Some ==> r->Some_0 == self.spec_bytes_per_value(),
    {
        match self {
            BufferDesc::Binary { max_bytes } => Some(max_bytes),
            BufferDesc::Text { max_str_len } => max_str_len.checked_add(1),
            BufferDesc::WText { max_str_len } => match max_str_len.checked_add(1) {
                Some(n) => n.checked_mul(2),
                None => None,
            },
            BufferDesc::F64 { .. } | BufferDesc::I64 { .. } => Some(8),
            BufferDesc::F32 { .. } | BufferDesc::I32 { .. } => Some(4),
            BufferDesc::Date { .. } => Some(6),
            BufferDesc::Timestamp { .. } => Some(16),
            BufferDesc::I16 { .. } => Some(2),
            BufferDesc::I8 { .. } | BufferDesc::U8 { .. } | BufferDesc::Bit { .. } => Some(1),
        }
    }
}

/// The number of bytes that the values of `rows` rows take in buffers of the shapes `descs`.
/// The indicators are not counted.
pub open spec fn value_bytes(descs: Seq<BufferDesc>, rows: nat) -> nat
    decreases descs.len(),
{
    if descs.len() == 0 {
        0
    } else {
        value_bytes(descs.drop_last(), rows) + descs.last().spec_bytes_per_value() * rows
    }
}

/// The bytes of the first buffers are no more than the bytes of all.
pub proof fn lemma_value_bytes_grow(descs: Seq<BufferDesc>, k: int, rows: nat)
    requires
        0 <= k <= descs.len(),
    ensures
        value_bytes(descs.take(k), rows) <= value_bytes(descs, rows),
    decreases descs.len() - k,
{
    if k < descs.len() {
        lemma_value_bytes_grow(descs, k + 1, rows);
        assert(descs.take(k + 1).drop_last() =~= descs.take(k));
    } else {
        assert(descs.take(k) =~= descs);
    }
}

/// The number of bytes that a buffer for batches of up to `max_batch_size` rows sets aside
/// for the values of the columns described by `descs`, `None` where that number is beyond
/// `usize`: no such buffer can be allocated.
pub fn batch_bytes(descs: &Vec<BufferDesc>, max_batch_size: usize) -> (r: Option<usize>)
    ensures
        r is Some <==> value_bytes(descs@, max_batch_size as nat) <= usize::MAX,
        r is Some ==> r->Some_0 == value_bytes(descs@, max_batch_size as nat),
{
    let mut total: usize = 0;
    let mut i: usize = 0;
    assert(descs@.take(0) =~= Seq::<BufferDesc>::empty());
    while i < descs.len()
        invariant
            i <= descs@.len(),
            total == value_bytes(descs@.take(i as int), max_batch_size as nat),
        decreases descs@.len() - i,
    {
        proof {
            assert(descs@.take(i + 1).drop_last() =~= descs@.take(i as int));
            lemma_value_bytes_grow(descs@, i + 1, max_batch_size as nat);
        }
        let ghost column: nat = descs@[i as int].spec_bytes_per_value() * (max_batch_size as nat);
        let per_value: usize = match descs[i].bytes_per_value() {
            Some(n) => n,
            None => {
                if max_batch_size == 0 {
                    assert(column == 0) by (nonlinear_arith)
                        requires
                            column == descs@[i as int].spec_bytes_per_value() * (max_batch_size as nat),
                            max_batch_size == 0,
                    ;
                    0
                } else {
                    assert(column > usize::MAX) by (nonlinear_arith)
                        requires
                            column == descs@[i as int].spec_bytes_per_value() * (max_batch_size as nat),
                            descs@[i as int].spec_bytes_per_value() > usize::MAX,
                            max_batch_size >= 1,
                    ;
                    return None;
                }
            },
        };
        let bytes: usize = match per_value.checked_mul(max_batch_size) {
            Some(n) => n,
            None => {
                return None;
            },
        };
        assert(bytes == column);
        total = match total.checked_add(bytes) {
            Some(n) => n,
            None => {
                return None;
            },
        };
        i = i + 1;
    }
    assert(descs@.take(i as int) =~= descs@);
    Some(total)
}

/// The number of bytes that a buffer for batches of up to `max_batch_size` rows sets aside
/// for the values of the columns described by `descs`, and an error where no such buffer can
/// be: the caller may then try again with smaller batches.
pub fn checked_batch_bytes<E>(descs: &Vec<BufferDesc>, max_batch_size: usize) -> (r: Result<
    usize,
    Error<E>,
>)
    ensures
        r == if value_bytes(descs@, max_batch_size as nat) <= usize::MAX {
            Ok::<usize, Error<E>>(value_bytes(descs@, max_batch_size as nat) as usize)
        } else {
            Err(Error::BufferTooLarge { max_batch_size })
        },
{
    match batch_bytes(descs, max_batch_size) {
        Some(bytes) => Ok(bytes),
        None => Err(Error::BufferTooLarge { max_batch_size }),
    }
}

} // verus!
