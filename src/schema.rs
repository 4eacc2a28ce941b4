//! Static descriptions of record layouts.
use vstd::prelude::*;
use crate::address::{address_size, NARROW_ADDRESS_SIZE, WIDE_ADDRESS_SIZE};

verus! {

broadcast use vstd::std_specs::vec::group_vec_axioms;

/// Bytes of a sequence field: a 64-bit count followed by a 64-bit relative offset.
pub const SEQUENCE_HEADER_SIZE: usize = 16;

/// Bytes of the discriminant that follows the address of a variant reference.
pub const DISCRIMINANT_SIZE: usize = 4;

/// A fixed-width integer field.
#[derive(Debug, Clone, Copy, PartialEq, Eq, Structural)]
pub enum ScalarKind {
    U8,
    I8,
    U16,
    I16,
    U32,
    I32,
    U64,
    I64,
}

impl ScalarKind {
    pub open spec fn width_spec(self) -> nat {
        match self {
            ScalarKind::U8 | ScalarKind::I8 => 1,
            ScalarKind::U16 | ScalarKind::I16 => 2,
            ScalarKind::U32 | ScalarKind::I32 => 4,
            ScalarKind::U64 | ScalarKind::I64 => 8,
        }
    }

    /// Bytes that the integer takes.
    pub fn width(&self) -> (r: usize)
        ensures
            r == self.width_spec(),
    {
        match self {
            ScalarKind::U8 | ScalarKind::I8 => 1,
            ScalarKind::U16 | ScalarKind::I16 => 2,
            ScalarKind::U32 | ScalarKind::I32 => 4,
            ScalarKind::U64 | ScalarKind::I64 => 8,
        }
    }
}

/// One concrete shape of a variant reference, chosen by its discriminant.
#[derive(Debug)]
pub struct VariantShape {
    pub discriminant: u32,
    pub schema: RecordSchema,
}

/// How a field is decoded.
#[derive(Debug)]
pub enum FieldRule {
    /// An integer, read in the cursor's byte order.
    Scalar(ScalarKind),
    /// A record stored inline, with offsets relative to the field's position.
    Nested(Box<RecordSchema>),
    /// A count and a relative offset; the elements lie one stride apart from that offset.
    Sequence(Box<RecordSchema>),
    /// An address of a record elsewhere in the store; an optional one may be absent.
    Reference { wide: bool, optional: bool, target: Box<RecordSchema> },
    /// An address followed by a discriminant that picks one of the shapes.
    Variant { wide: bool, shapes: Vec<VariantShape> },
}

/// A field: where it starts, relative to the record, and how it is decoded.
#[derive(Debug)]
pub struct FieldDescriptor {
    pub offset: usize,
    pub rule: FieldRule,
}

/// Static description of one record type.
#[derive(Debug)]
pub struct RecordSchema {
    pub type_id: u32,
    /// Declared total size, used to validate the fields and as the stride of sequences.
    pub size: Option<usize>,
    /// Fields in decoding order.
    pub fields: Vec<FieldDescriptor>,
}

/// Inline bytes that a field of this rule takes in its record.
pub open spec fn rule_width(rule: FieldRule) -> nat
    decreases rule, 0nat,
{
    match rule {
        FieldRule::Scalar(k) => k.width_spec(),
        FieldRule::Nested(s) => stride(*s),
        FieldRule::Sequence(_) => SEQUENCE_HEADER_SIZE as nat,
        FieldRule::Reference { wide, .. } => address_size(wide),
        FieldRule::Variant { wide, .. } => (address_size(wide) + DISCRIMINANT_SIZE) as nat,
    }
}

/// Greatest field end among the first `k` fields.
pub open spec fn end_of_fields(s: RecordSchema, k: nat) -> nat
    decreases s, k,
{
    if k == 0 || k > s.fields@.len() {
        0
    } else {
        let f = s.fields@[k - 1];
        let prev = end_of_fields(s, (k - 1) as nat);
        let end = (f.offset + rule_width(f.rule)) as nat;
        if end > prev {
            end
        } else {
            prev
        }
    }
}

/// Greatest `offset + width` over the record's fields.
pub open spec fn inline_end(s: RecordSchema) -> nat
    decreases s, s.fields@.len() + 1,
{
    end_of_fields(s, s.fields@.len())
}

/// Distance between consecutive records of this schema in a sequence: the declared size,
/// or else the end of the last field.
pub open spec fn stride(s: RecordSchema) -> nat
    decreases s, s.fields@.len() + 2,
{
    match s.size {
        Some(n) => n as nat,
        None => inline_end(s),
    }
}

/// The fields reach past the declared size.
pub open spec fn overruns(s: RecordSchema) -> bool {
    match s.size {
        Some(n) => inline_end(s) > n,
        None => false,
    }
}

/// `Some(n)` where `n` fits in a `usize`, else `None`.
pub open spec fn fit(n: nat) -> Option<usize> {
    if n <= usize::MAX {
        Some(n as usize)
    } else {
        None
    }
}

fn add_fit(a: Option<usize>, b: usize) -> (r: Option<usize>)
    ensures
        a is Some ==> r == fit((a->0 + b) as nat),
        a is None ==> r is None,
{
    match a {
        Some(x) => x.checked_add(b),
        None => None,
    }
}

/// Inline width of a field rule, `None` where it exceeds a `usize`.
pub fn rule_width_of(rule: &FieldRule) -> (r: Option<usize>)
    ensures
        r == fit(rule_width(*rule)),
    decreases rule, 0nat,
{
    match rule {
        FieldRule::Scalar(k) => Some(k.width()),
        FieldRule::Nested(s) => stride_of(s),
        FieldRule::Sequence(_) => Some(SEQUENCE_HEADER_SIZE),
        FieldRule::Reference { wide, .. } => if *wide {
            Some(WIDE_ADDRESS_SIZE)
        } else {
            Some(NARROW_ADDRESS_SIZE)
        },
        FieldRule::Variant { wide, .. } => if *wide {
            Some(WIDE_ADDRESS_SIZE + DISCRIMINANT_SIZE)
        } else {
            Some(NARROW_ADDRESS_SIZE + DISCRIMINANT_SIZE)
        },
    }
}

/// Greatest field end of the record, `None` where it exceeds a `usize`.
pub fn inline_end_of(s: &RecordSchema) -> (r: Option<usize>)
    ensures
        r == fit(inline_end(*s)),
    decreases s, s.fields@.len() + 1,
{
    let mut best: usize = 0;
    let mut k: usize = 0;
    while k < s.fields.len()
        invariant
            k <= s.fields@.len(),
            best == end_of_fields(*s, k as nat),
        decreases s.fields@.len() - k,
    {
        let f = &s.fields[k];
        assert(decreases_to!(*s => s.fields@[k as int].rule));
        let w = rule_width_of(&f.rule);
        let end = add_fit(w, f.offset);
        match end {
            Some(e) => {
                if e > best {
                    best = e;
                }
            },
            None => {
                proof {
                    lemma_end_of_fields_mono(*s, (k + 1) as nat, s.fields@.len());
                }
                return None;
            },
        }
        k = k + 1;
    }
    Some(best)
}

/// Stride of the schema in a sequence, `None` where it exceeds a `usize`.
pub fn stride_of(s: &RecordSchema) -> (r: Option<usize>)
    ensures
        r == fit(stride(*s)),
    decreases s, s.fields@.len() + 2,
{
    match s.size {
        Some(n) => Some(n),
        None => inline_end_of(s),
    }
}

pub proof fn lemma_end_of_fields_mono(s: RecordSchema, j: nat, k: nat)
    requires
        j <= k <= s.fields@.len(),
    ensures
        end_of_fields(s, j) <= end_of_fields(s, k),
    decreases k,
{
    if j < k {
        lemma_end_of_fields_mono(s, j, (k - 1) as nat);
    }
}

/// Whether the fields reach past the declared size.
pub fn check_overrun(s: &RecordSchema) -> (r: bool)
    ensures
        r == overruns(*s),
{
    match s.size {
        Some(n) => match inline_end_of(s) {
            Some(e) => e > n,
            None => true,
        },
        None => false,
    }
}

/// The fields are listed by ascending offset, so that decoding them in list order
/// visits them in ascending offset order.
pub open spec fn offsets_ascending(fields: Seq<FieldDescriptor>) -> bool {
    forall|i: int, j: int| 0 <= i < j < fields.len() ==> fields[i].offset <= fields[j].offset
}

impl RecordSchema {
    /// A schema with no fields yet.
    pub fn new(type_id: u32, size: Option<usize>) -> (r: RecordSchema)
        ensures
            r.type_id == type_id,
            r.size == size,
            r.fields@.len() == 0,
            offsets_ascending(r.fields@),
    {
        RecordSchema { type_id, size, fields: Vec::new() }
    }

    /// Where a field placed immediately after the last one starts.
    pub open spec fn next_offset(&self) -> nat {
        if self.fields@.len() == 0 {
            0
        } else {
            let last = self.fields@.last();
            (last.offset + rule_width(last.rule)) as nat
        }
    }

    /// Adds a field at an explicit offset, after the fields whose offsets do not exceed
    /// it and before the others.
    pub fn push_at(&mut self, offset: usize, rule: FieldRule)
        ensures
            final(self).type_id == old(self).type_id,
            final(self).size == old(self).size,
            exists|j: int|
                0 <= j <= old(self).fields@.len() && final(self).fields@ == old(self).fields@.insert(
                    j,
                    FieldDescriptor { offset, rule },
                ) && (forall|i: int| 0 <= i < j ==> (#[trigger] old(self).fields@[i]).offset <= offset)
                    && (j < old(self).fields@.len() ==> old(self).fields@[j].offset > offset),
            offsets_ascending(old(self).fields@) ==> offsets_ascending(final(self).fields@),
            offsets_ascending(old(self).fields@) && (old(self).fields@.len() == 0
                || old(self).fields@.last().offset <= offset) ==> final(self).fields@
                == old(self).fields@.push(FieldDescriptor { offset, rule }),
    {
        let mut j: usize = 0;
        while j < self.fields.len() && self.fields[j].offset <= offset
            invariant
                j <= self.fields@.len(),
                self.fields@ == old(self).fields@,
                forall|i: int| 0 <= i < j ==> (#[trigger] self.fields@[i]).offset <= offset,
            decreases self.fields@.len() - j,
        {
            j = j + 1;
        }
        let ghost before = self.fields@;
        let fd = FieldDescriptor { offset, rule };
        self.fields.insert(j, fd);
        proof {
            let after = self.fields@;
            if offsets_ascending(before) {
                assert forall|a: int, b: int| 0 <= a < b < after.len() implies after[a].offset
                    <= after[b].offset by {
                    if b < j {
                        assert(after[a] == before[a] && after[b] == before[b]);
                    } else if b == j {
                        assert(after[a] == before[a]);
                    } else if a < j {
                        assert(after[a] == before[a] && after[b] == before[b - 1]);
                        assert(before[j as int].offset > offset);
                    } else if a == j {
                        assert(after[b] == before[b - 1]);
                        assert(before[j as int].offset > offset);
                    } else {
                        assert(after[a] == before[a - 1] && after[b] == before[b - 1]);
                    }
                }
                if before.len() == 0 || before.last().offset <= offset {
                    if j < before.len() {
                        assert(before[j as int].offset <= before.last().offset);
                    }
                    assert(after =~= before.push(FieldDescriptor { offset, rule }));
                }
            }
        }
    }

    /// Adds a field immediately after the last one (at offset 0 for the first field).
    pub fn push(&mut self, rule: FieldRule)
        requires
            old(self).next_offset() <= usize::MAX,
        ensures
            final(self).type_id == old(self).type_id,
            final(self).size == old(self).size,
            final(self).fields@ == old(self).fields@.push(
                FieldDescriptor { offset: old(self).next_offset() as usize, rule },
            ),
            offsets_ascending(old(self).fields@) ==> offsets_ascending(final(self).fields@),
    {
        let n = self.fields.len();
        let offset = if n == 0 {
            0
        } else {
            let last = &self.fields[n - 1];
            match add_fit(rule_width_of(&last.rule), last.offset) {
                Some(o) => o,
                None => 0,
            }
        };
        self.fields.push(FieldDescriptor { offset, rule });
    }
}

} // verus!
