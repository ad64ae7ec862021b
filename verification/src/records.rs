//! The structural verifier: parse one colon-delimited line of a structural
//! dump into a typed record, and read its positional fields through typed
//! accessors.
//!
//! Parsing is purely positional.  Field 0 carries the record-type tag;
//! fixed indices carry the key length, the public-key algorithm id, the
//! expiration epoch, the user-id or fingerprint text, the capability
//! letters, and the issuer fingerprint.  An empty or missing field reads as
//! absent; an unrecognised type tag is reported and may be filtered out by
//! the caller; an unrecognised capability letter is a fatal error, since it
//! signals a format the parser cannot trust.

use vstd::prelude::*;

use crate::caps::{decode_caps, CapabilitySet};
use crate::decimal::{dec_opt, parse_u64};

verus! {

/// The byte the dump format delimits fields with.
pub const FIELD_DELIMITER: u8 = 58;

/// `s` split at every delimiter: one more field than there are delimiters.
pub open spec fn split_fields(s: Seq<u8>) -> Seq<Seq<u8>>
    decreases s.len(),
{
    if s.len() == 0 {
        seq![Seq::<u8>::empty()]
    } else if s.last() == FIELD_DELIMITER {
        split_fields(s.drop_last()).push(Seq::<u8>::empty())
    } else {
        let r = split_fields(s.drop_last());
        r.update(r.len() - 1, r.last().push(s.last()))
    }
}

/// The fields of a line, joined back with the delimiter.
pub open spec fn join_fields(fs: Seq<Seq<u8>>) -> Seq<u8>
    decreases fs.len(),
{
    if fs.len() == 0 {
        Seq::<u8>::empty()
    } else if fs.len() == 1 {
        fs[0]
    } else {
        join_fields(fs.drop_last()) + seq![FIELD_DELIMITER] + fs.last()
    }
}

/// Splitting yields at least one field.
pub proof fn lemma_split_fields_nonempty(s: Seq<u8>)
    ensures
        split_fields(s).len() >= 1,
    decreases s.len(),
{
    if s.len() > 0 {
        lemma_split_fields_nonempty(s.drop_last());
    }
}

/// A line without the delimiter splits into itself alone.
proof fn lemma_split_single(f: Seq<u8>)
    requires
        !f.contains(FIELD_DELIMITER),
    ensures
        split_fields(f) == seq![f],
    decreases f.len(),
{
    if f.len() == 0 {
        assert(split_fields(f) =~~= seq![f]);
    } else {
        assert(f.last() != FIELD_DELIMITER) by {
            assert(f.contains(f.last()));
        }
        assert(!f.drop_last().contains(FIELD_DELIMITER)) by {
            if f.drop_last().contains(FIELD_DELIMITER) {
                let i = choose|i: int|
                    0 <= i < f.drop_last().len() && f.drop_last()[i] == FIELD_DELIMITER;
                assert(f[i] == FIELD_DELIMITER);
            }
        }
        lemma_split_single(f.drop_last());
        assert(f.drop_last().push(f.last()) =~= f);
        assert(split_fields(f) =~~= seq![f]);
    }
}

/// Appending a delimiter and a delimiter-free tail adds one field.
proof fn lemma_split_append(x: Seq<u8>, b: Seq<u8>)
    requires
        !b.contains(FIELD_DELIMITER),
    ensures
        split_fields(x + seq![FIELD_DELIMITER] + b) == split_fields(x).push(b),
    decreases b.len(),
{
    if b.len() == 0 {
        let s = x + seq![FIELD_DELIMITER] + b;
        assert(s.last() == FIELD_DELIMITER);
        assert(s.drop_last() =~= x);
        assert(split_fields(s) =~~= split_fields(x).push(b));
    } else {
        assert(b.last() != FIELD_DELIMITER) by {
            assert(b.contains(b.last()));
        }
        assert(!b.drop_last().contains(FIELD_DELIMITER)) by {
            if b.drop_last().contains(FIELD_DELIMITER) {
                let i = choose|i: int|
                    0 <= i < b.drop_last().len() && b.drop_last()[i] == FIELD_DELIMITER;
                assert(b[i] == FIELD_DELIMITER);
            }
        }
        let s = x + seq![FIELD_DELIMITER] + b;
        assert(s.last() == b.last());
        assert(s.drop_last() =~= x + seq![FIELD_DELIMITER] + b.drop_last());
        lemma_split_append(x, b.drop_last());
        lemma_split_fields_nonempty(x);
        assert(b.drop_last().push(b.last()) =~= b);
        assert(split_fields(s) =~~= split_fields(x).push(b));
    }
}

/// Splitting inverts joining, for delimiter-free fields.
pub proof fn lemma_split_join(fs: Seq<Seq<u8>>)
    requires
        fs.len() >= 1,
        forall|i: int| 0 <= i < fs.len() ==> !(#[trigger] fs[i]).contains(FIELD_DELIMITER),
    ensures
        split_fields(join_fields(fs)) == fs,
    decreases fs.len(),
{
    if fs.len() == 1 {
        lemma_split_single(fs[0]);
        assert(split_fields(join_fields(fs)) =~~= fs);
    } else {
        lemma_split_join(fs.drop_last());
        lemma_split_append(join_fields(fs.drop_last()), fs.last());
        assert(fs.drop_last().push(fs.last()) =~= fs);
        assert(split_fields(join_fields(fs)) =~~= fs);
    }
}

/// Split a dump line at every delimiter.
pub fn split_line(line: &[u8]) -> (r: Vec<Vec<u8>>)
    ensures
        r.deep_view() == split_fields(line@),
        r@.len() >= 1,
{
    let mut fields: Vec<Vec<u8>> = Vec::new();
    let mut cur: Vec<u8> = Vec::new();
    let n = line.len();
    let mut i: usize = 0;
    proof {
        assert(line@.take(0) =~= Seq::<u8>::empty());
        assert(fields.deep_view().push(cur@) =~~= split_fields(line@.take(0)));
    }
    while i < n
        invariant
            0 <= i <= n,
            n == line@.len(),
            fields.deep_view().push(cur@) == split_fields(line@.take(i as int)),
        decreases n - i,
    {
        let b = line[i];
        proof {
            assert(line@.take(i as int + 1).drop_last() =~= line@.take(i as int));
            assert(line@.take(i as int + 1).last() == line@[i as int]);
            lemma_split_fields_nonempty(line@.take(i as int));
        }
        if b == FIELD_DELIMITER {
            let ghost old_fields = fields.deep_view();
            let ghost old_cur = cur@;
            fields.push(cur);
            cur = Vec::new();
            proof {
                assert(fields.deep_view() =~~= old_fields.push(old_cur));
                assert(fields.deep_view().push(cur@) =~~= split_fields(
                    line@.take(i as int + 1),
                ));
            }
        } else {
            let ghost old_cur = cur@;
            cur.push(b);
            proof {
                let pre = fields.deep_view().push(old_cur);
                assert(fields.deep_view().push(cur@) =~~= pre.update(
                    pre.len() - 1,
                    pre.last().push(b),
                ));
            }
        }
        i = i + 1;
    }
    proof {
        assert(line@.take(n as int) =~= line@);
    }
    let ghost old_fields = fields.deep_view();
    let ghost old_cur = cur@;
    fields.push(cur);
    proof {
        assert(fields.deep_view() =~~= old_fields.push(old_cur));
    }
    fields
}

/// Append the bytes of `src` to `out`.
fn push_bytes(out: &mut Vec<u8>, src: &Vec<u8>)
    ensures
        final(out)@ == old(out)@ + src@,
{
    let n = src.len();
    let mut i: usize = 0;
    while i < n
        invariant
            0 <= i <= n,
            n == src@.len(),
            out@ == old(out)@ + src@.take(i as int),
        decreases n - i,
    {
        out.push(src[i]);
        proof {
            assert(old(out)@ + src@.take(i as int + 1) =~= (old(out)@ + src@.take(i as int)).push(
                src@[i as int],
            ));
        }
        i = i + 1;
    }
    proof {
        assert(src@.take(n as int) =~= src@);
    }
}

/// Join fields back into a dump line.
pub fn render_line(fields: &Vec<Vec<u8>>) -> (r: Vec<u8>)
    requires
        fields@.len() >= 1,
    ensures
        r@ == join_fields(fields.deep_view()),
{
    let mut out: Vec<u8> = Vec::new();
    push_bytes(&mut out, &fields[0]);
    proof {
        assert(fields.deep_view().take(1) =~~= seq![fields.deep_view()[0]]);
        assert(out@ == join_fields(fields.deep_view().take(1)));
    }
    let n = fields.len();
    let mut i: usize = 1;
    while i < n
        invariant
            1 <= i <= n,
            n == fields@.len(),
            out@ == join_fields(fields.deep_view().take(i as int)),
        decreases n - i,
    {
        out.push(FIELD_DELIMITER);
        push_bytes(&mut out, &fields[i]);
        proof {
            let dv = fields.deep_view();
            assert(dv.take(i as int + 1).drop_last() =~~= dv.take(i as int));
            assert(dv.take(i as int + 1).last() =~= dv[i as int]);
            assert(dv.take(i as int + 1).len() == i + 1 >= 2);
            assert(out@ =~= join_fields(dv.take(i as int)) + seq![FIELD_DELIMITER] + dv[
                i as int
            ]);
        }
        i = i + 1;
    }
    proof {
        assert(fields.deep_view().take(n as int) =~~= fields.deep_view());
    }
    out
}

/// The record types the structural verifier understands, by their tag in
/// field 0 of a dump line.
#[derive(Clone, Copy, PartialEq, Eq, Structural, Debug)]
pub enum RecordType {
    /// `pub`: a public master key.
    PublicKey,
    /// `sub`: a public subkey.
    PublicSubkey,
    /// `sec`: a private master key.
    SecretKey,
    /// `ssb`: a private subkey.
    SecretSubkey,
    /// `fpr`: the fingerprint of the key on the preceding line.
    Fingerprint,
    /// `uid`: a user id.
    UserId,
    /// `rvs`: a standalone revocation signature.
    StandaloneRevocation,
}

/// Errors of the structural verifier.
#[derive(Clone, Copy, PartialEq, Eq, Structural, Debug)]
pub enum ParseError {
    /// The type tag of a line is not one this parser understands; the
    /// caller may filter such lines out.
    UnknownRecordType,
    /// The capability field holds a letter outside the coding; fatal,
    /// since it signals a format this parser cannot trust.
    MalformedCapability,
}

/// The tag bytes of a record type.
pub open spec fn type_tag(t: RecordType) -> Seq<u8> {
    match t {
        RecordType::PublicKey => seq![112u8, 117u8, 98u8],
        RecordType::PublicSubkey => seq![115u8, 117u8, 98u8],
        RecordType::SecretKey => seq![115u8, 101u8, 99u8],
        RecordType::SecretSubkey => seq![115u8, 115u8, 98u8],
        RecordType::Fingerprint => seq![102u8, 112u8, 114u8],
        RecordType::UserId => seq![117u8, 105u8, 100u8],
        RecordType::StandaloneRevocation => seq![114u8, 118u8, 115u8],
    }
}

/// The record type a tag denotes, if any.
pub open spec fn tag_type(s: Seq<u8>) -> Option<RecordType> {
    if s == type_tag(RecordType::PublicKey) {
        Some(RecordType::PublicKey)
    } else if s == type_tag(RecordType::PublicSubkey) {
        Some(RecordType::PublicSubkey)
    } else if s == type_tag(RecordType::SecretKey) {
        Some(RecordType::SecretKey)
    } else if s == type_tag(RecordType::SecretSubkey) {
        Some(RecordType::SecretSubkey)
    } else if s == type_tag(RecordType::Fingerprint) {
        Some(RecordType::Fingerprint)
    } else if s == type_tag(RecordType::UserId) {
        Some(RecordType::UserId)
    } else if s == type_tag(RecordType::StandaloneRevocation) {
        Some(RecordType::StandaloneRevocation)
    } else {
        None
    }
}

/// The type a tag field denotes, if any.
fn tag_of(t: &[u8]) -> (r: Option<RecordType>)
    ensures
        r == tag_type(t@),
{
    if t.len() != 3 {
        return None;
    }
    let a = t[0];
    let b = t[1];
    let c = t[2];
    proof {
        assert(t@ =~= seq![t@[0], t@[1], t@[2]]);
    }
    if a == 112 && b == 117 && c == 98 {
        Some(RecordType::PublicKey)
    } else if a == 115 && b == 117 && c == 98 {
        Some(RecordType::PublicSubkey)
    } else if a == 115 && b == 101 && c == 99 {
        Some(RecordType::SecretKey)
    } else if a == 115 && b == 115 && c == 98 {
        Some(RecordType::SecretSubkey)
    } else if a == 102 && b == 112 && c == 114 {
        Some(RecordType::Fingerprint)
    } else if a == 117 && b == 105 && c == 100 {
        Some(RecordType::UserId)
    } else if a == 114 && b == 118 && c == 115 {
        Some(RecordType::StandaloneRevocation)
    } else {
        None
    }
}

/// One parsed line of a structural dump: its type and its raw fields.
#[derive(Debug)]
pub struct StructuralRecord {
    rtype: RecordType,
    fields: Vec<Vec<u8>>,
}

impl StructuralRecord {
    /// The raw fields of the line, in order.
    pub closed spec fn spec_fields(&self) -> Seq<Seq<u8>> {
        self.fields.deep_view()
    }

    /// The record's type.
    pub closed spec fn spec_type(&self) -> RecordType {
        self.rtype
    }

    /// The field at position `i`, a missing field reading as empty.
    pub open spec fn field_at(&self, i: int) -> Seq<u8> {
        if 0 <= i < self.spec_fields().len() {
            self.spec_fields()[i]
        } else {
            Seq::<u8>::empty()
        }
    }

    /// A parsed record's type tag denotes its type.
    pub open spec fn wf(&self) -> bool {
        &&& self.spec_fields().len() >= 1
        &&& tag_type(self.spec_fields()[0]) == Some(self.spec_type())
    }

    /// The record's type.
    pub fn record_type(&self) -> (r: RecordType)
        ensures
            r == self.spec_type(),
    {
        self.rtype
    }

    /// How many fields the line holds.
    pub fn field_count(&self) -> (r: usize)
        ensures
            r == self.spec_fields().len(),
    {
        self.fields.len()
    }

    /// The key length in bits, absent if the field is empty, missing, or
    /// not a 64-bit decimal number.
    pub fn key_length(&self) -> (r: Option<u64>)
        ensures
            r == dec_opt(self.field_at(2)),
    {
        if self.fields.len() > 2 {
            proof {
                assert(self.spec_fields()[2] =~= self.fields@[2]@);
            }
            parse_u64(self.fields[2].as_slice())
        } else {
            None
        }
    }

    /// The public-key algorithm id, absent if the field is empty, missing,
    /// or not a 64-bit decimal number.
    pub fn pk_algorithm(&self) -> (r: Option<u64>)
        ensures
            r == dec_opt(self.field_at(3)),
    {
        if self.fields.len() > 3 {
            proof {
                assert(self.spec_fields()[3] =~= self.fields@[3]@);
            }
            parse_u64(self.fields[3].as_slice())
        } else {
            None
        }
    }

    /// The expiration as seconds since the epoch, absent if the field is
    /// empty, missing, or not a 64-bit decimal number.
    pub fn expiration(&self) -> (r: Option<u64>)
        ensures
            r == dec_opt(self.field_at(6)),
    {
        if self.fields.len() > 6 {
            proof {
                assert(self.spec_fields()[6] =~= self.fields@[6]@);
            }
            parse_u64(self.fields[6].as_slice())
        } else {
            None
        }
    }

    /// The (own-key, whole-key) capability pair of the capability field;
    /// fails on a letter outside the coding.
    pub fn capability_sets(&self) -> (r: Result<(CapabilitySet, CapabilitySet), ParseError>)
        ensures
            match r {
                Ok(p) => decode_caps(self.field_at(11)) == Some(p),
                Err(e) => {
                    &&& e == ParseError::MalformedCapability
                    &&& decode_caps(self.field_at(11)) is None
                },
            },
    {
        if self.fields.len() > 11 {
            proof {
                assert(self.spec_fields()[11] =~= self.fields@[11]@);
            }
            match crate::caps::decode_capability_field(self.fields[11].as_slice()) {
                Some(p) => Ok(p),
                None => Err(ParseError::MalformedCapability),
            }
        } else {
            let own = CapabilitySet::empty();
            let whole = CapabilitySet::empty();
            Ok((own, whole))
        }
    }

    /// The user-id or fingerprint text field.
    pub fn identity_or_fingerprint_text(&self) -> (r: Vec<u8>)
        ensures
            r@ == self.field_at(9),
    {
        if self.fields.len() > 9 {
            proof {
                assert(self.spec_fields()[9] =~= self.fields@[9]@);
            }
            vstd::slice::slice_to_vec(self.fields[9].as_slice())
        } else {
            Vec::new()
        }
    }

    /// The issuer fingerprint text, absent if the field is empty or
    /// missing.
    pub fn issuer_fingerprint(&self) -> (r: Option<Vec<u8>>)
        ensures
            match r {
                Some(v) => v@ == self.field_at(12) && self.field_at(12).len() > 0,
                None => self.field_at(12).len() == 0,
            },
    {
        proof {
            if self.spec_fields().len() > 12 {
                assert(self.spec_fields()[12] =~= self.fields@[12]@);
            }
        }
        if self.fields.len() > 12 && self.fields[12].len() > 0 {
            Some(vstd::slice::slice_to_vec(self.fields[12].as_slice()))
        } else {
            None
        }
    }
}

/// Parse one dump line into a typed record; report a line whose type tag
/// this parser does not understand.
pub fn parse_record(line: &[u8]) -> (r: Result<StructuralRecord, ParseError>)
    ensures
        match r {
            Ok(rec) => {
                &&& rec.wf()
                &&& rec.spec_fields() == split_fields(line@)
                &&& tag_type(split_fields(line@)[0]) == Some(rec.spec_type())
            },
            Err(e) => {
                &&& e == ParseError::UnknownRecordType
                &&& tag_type(split_fields(line@)[0]) is None
            },
        },
{
    let fields = split_line(line);
    proof {
        assert(fields.deep_view()[0] =~= fields@[0]@);
    }
    match tag_of(fields[0].as_slice()) {
        Some(t) => Ok(StructuralRecord { rtype: t, fields }),
        None => Err(ParseError::UnknownRecordType),
    }
}

/// Parse a whole dump, filtering out lines whose type tag this parser does
/// not understand.
/// The split fields of those lines whose type tag the parser understands,
/// in their original order.
pub open spec fn known_line_fields(lines: Seq<Seq<u8>>) -> Seq<Seq<Seq<u8>>>
    decreases lines.len(),
{
    if lines.len() == 0 {
        Seq::<Seq<Seq<u8>>>::empty()
    } else {
        let rest = known_line_fields(lines.drop_last());
        if tag_type(split_fields(lines.last())[0]) is Some {
            rest.push(split_fields(lines.last()))
        } else {
            rest
        }
    }
}

pub fn parse_records(lines: &Vec<Vec<u8>>) -> (r: Vec<StructuralRecord>)
    ensures
        r@.len() == known_line_fields(lines.deep_view()).len(),
        forall|k: int|
            0 <= k < r@.len() ==> (#[trigger] r@[k]).spec_fields() == known_line_fields(
                lines.deep_view(),
            )[k],
        forall|k: int| 0 <= k < r@.len() ==> (#[trigger] r@[k]).wf(),
{
    let n = lines.len();
    let mut out: Vec<StructuralRecord> = Vec::new();
    let mut i: usize = 0;
    proof {
        assert(lines.deep_view().take(0) =~~= Seq::<Seq<u8>>::empty());
    }
    while i < n
        invariant
            0 <= i <= n,
            n == lines@.len(),
            n == lines.deep_view().len(),
            out@.len() == known_line_fields(lines.deep_view().take(i as int)).len(),
            forall|k: int|
                0 <= k < out@.len() ==> (#[trigger] out@[k]).spec_fields()
                    == known_line_fields(lines.deep_view().take(i as int))[k],
            forall|k: int| 0 <= k < out@.len() ==> (#[trigger] out@[k]).wf(),
        decreases n - i,
    {
        let ghost dv = lines.deep_view();
        proof {
            assert(dv.take(i as int + 1).drop_last() =~~= dv.take(i as int));
            assert(dv.take(i as int + 1).last() =~= dv[i as int]);
            assert(lines@[i as int]@ =~= dv[i as int]);
            lemma_split_fields_nonempty(dv[i as int]);
        }
        match parse_record(lines[i].as_slice()) {
            Ok(rec) => {
                out.push(rec);
            },
            Err(_) => {},
        }
        i = i + 1;
    }
    proof {
        assert(lines.deep_view().take(n as int) =~~= lines.deep_view());
    }
    out
}

/// How many records of type `t` the sequence holds.
pub open spec fn spec_count_type(rs: Seq<StructuralRecord>, t: RecordType) -> nat
    decreases rs.len(),
{
    if rs.len() == 0 {
        0
    } else {
        spec_count_type(rs.drop_last(), t) + if rs.last().spec_type() == t {
            1nat
        } else {
            0nat
        }
    }
}

/// Count the records of type `t`.
pub fn count_records(records: &Vec<StructuralRecord>, t: RecordType) -> (r: usize)
    ensures
        r == spec_count_type(records@, t),
{
    let n = records.len();
    let mut count: usize = 0;
    let mut i: usize = 0;
    proof {
        assert(records@.take(0) =~= Seq::<StructuralRecord>::empty());
    }
    while i < n
        invariant
            0 <= i <= n,
            n == records@.len(),
            count == spec_count_type(records@.take(i as int), t),
            count <= i,
        decreases n - i,
    {
        proof {
            assert(records@.take(i as int + 1).drop_last() =~= records@.take(i as int));
            assert(records@.take(i as int + 1).last() == records@[i as int]);
        }
        if records[i].record_type() == t {
            count = count + 1;
        }
        i = i + 1;
    }
    proof {
        assert(records@.take(n as int) =~= records@);
    }
    count
}

/// The fingerprint text of the first private master key record, read by
/// adjacency from the fingerprint record immediately following it.
pub open spec fn spec_master_fingerprint(rs: Seq<StructuralRecord>) -> Option<Seq<u8>>
    decreases rs.len(),
{
    if rs.len() == 0 {
        None
    } else if rs[0].spec_type() == RecordType::SecretKey {
        if rs.len() >= 2 && rs[1].spec_type() == RecordType::Fingerprint {
            Some(rs[1].field_at(9))
        } else {
            None
        }
    } else {
        spec_master_fingerprint(rs.skip(1))
    }
}

/// Find the master key's fingerprint: the text field of the fingerprint
/// record immediately following the first private master key record.
pub fn master_fingerprint(records: &Vec<StructuralRecord>) -> (r: Option<Vec<u8>>)
    ensures
        match r {
            Some(v) => spec_master_fingerprint(records@) == Some(v@),
            None => spec_master_fingerprint(records@) is None,
        },
{
    let n = records.len();
    let mut i: usize = 0;
    proof {
        assert(records@.skip(0) =~= records@);
    }
    while i < n
        invariant
            0 <= i <= n,
            n == records@.len(),
            spec_master_fingerprint(records@) == spec_master_fingerprint(
                records@.skip(i as int),
            ),
        decreases n - i,
    {
        proof {
            assert(records@.skip(i as int)[0] == records@[i as int]);
            assert(records@.skip(i as int).skip(1) =~= records@.skip(i as int + 1));
        }
        if records[i].record_type() == RecordType::SecretKey {
            if i + 1 < n && records[i + 1].record_type() == RecordType::Fingerprint {
                proof {
                    assert(records@.skip(i as int)[1] == records@[i as int + 1]);
                }
                return Some(records[i + 1].identity_or_fingerprint_text());
            } else {
                proof {
                    if records@.skip(i as int).len() >= 2 {
                        assert(records@.skip(i as int)[1] == records@[i as int + 1]);
                    }
                }
                return None;
            }
        }
        i = i + 1;
    }
    proof {
        assert(records@.skip(n as int) =~= Seq::<StructuralRecord>::empty());
    }
    None
}

/// A number field: the digit string of the value, or empty for absent.
pub open spec fn opt_dec_field(o: Option<u64>) -> Seq<u8> {
    match o {
        Some(n) => crate::decimal::dec_digits(n as nat),
        None => Seq::<u8>::empty(),
    }
}

/// The fields of a structural record line carrying the given typed
/// content, at the parser's fixed positions; every other field is empty.
pub open spec fn record_fields(
    t: RecordType,
    key_length: Option<u64>,
    algorithm: Option<u64>,
    expiration: Option<u64>,
    text: Seq<u8>,
    own: CapabilitySet,
    whole: CapabilitySet,
    issuer: Seq<u8>,
) -> Seq<Seq<u8>> {
    seq![
        type_tag(t),
        Seq::<u8>::empty(),
        opt_dec_field(key_length),
        opt_dec_field(algorithm),
        Seq::<u8>::empty(),
        Seq::<u8>::empty(),
        opt_dec_field(expiration),
        Seq::<u8>::empty(),
        Seq::<u8>::empty(),
        text,
        Seq::<u8>::empty(),
        crate::caps::cap_letters(own, whole),
        issuer,
    ]
}

/// The tag bytes of a record type.
fn tag_bytes(t: RecordType) -> (r: Vec<u8>)
    ensures
        r@ == type_tag(t),
{
    let mut v: Vec<u8> = Vec::new();
    match t {
        RecordType::PublicKey => {
            v.push(112);
            v.push(117);
            v.push(98);
        },
        RecordType::PublicSubkey => {
            v.push(115);
            v.push(117);
            v.push(98);
        },
        RecordType::SecretKey => {
            v.push(115);
            v.push(101);
            v.push(99);
        },
        RecordType::SecretSubkey => {
            v.push(115);
            v.push(115);
            v.push(98);
        },
        RecordType::Fingerprint => {
            v.push(102);
            v.push(112);
            v.push(114);
        },
        RecordType::UserId => {
            v.push(117);
            v.push(105);
            v.push(100);
        },
        RecordType::StandaloneRevocation => {
            v.push(114);
            v.push(118);
            v.push(115);
        },
    }
    proof {
        assert(v@ =~= type_tag(t));
    }
    v
}

/// A number field's bytes: the digit string of the value, or empty.
fn opt_dec_bytes(o: Option<u64>) -> (r: Vec<u8>)
    ensures
        r@ == opt_dec_field(o),
{
    match o {
        Some(n) => crate::decimal::format_u64(n),
        None => Vec::new(),
    }
}

/// Render one structural record line with the given typed content at the
/// parser's fixed field positions.
#[verifier::rlimit(30)]
pub fn render_record(
    t: RecordType,
    key_length: Option<u64>,
    algorithm: Option<u64>,
    expiration: Option<u64>,
    text: &Vec<u8>,
    own: &CapabilitySet,
    whole: &CapabilitySet,
    issuer: &Vec<u8>,
) -> (r: Vec<u8>)
    ensures
        r@ == join_fields(
            record_fields(t, key_length, algorithm, expiration, text@, *own, *whole, issuer@),
        ),
{
    let mut fields: Vec<Vec<u8>> = Vec::new();
    fields.push(tag_bytes(t));
    fields.push(Vec::new());
    fields.push(opt_dec_bytes(key_length));
    fields.push(opt_dec_bytes(algorithm));
    fields.push(Vec::new());
    fields.push(Vec::new());
    fields.push(opt_dec_bytes(expiration));
    fields.push(Vec::new());
    fields.push(Vec::new());
    fields.push(vstd::slice::slice_to_vec(text.as_slice()));
    fields.push(Vec::new());
    fields.push(crate::caps::encode_capability_field(own, whole));
    fields.push(vstd::slice::slice_to_vec(issuer.as_slice()));
    proof {
        assert(fields.deep_view() =~~= record_fields(
            t,
            key_length,
            algorithm,
            expiration,
            text@,
            *own,
            *whole,
            issuer@,
        ));
    }
    render_line(&fields)
}

/// A capability field that decodes successfully holds no delimiter.
proof fn lemma_decode_some_no_delim(s: Seq<u8>, own: CapabilitySet, whole: CapabilitySet)
    requires
        crate::caps::decode_caps_acc(s, own, whole) is Some,
    ensures
        !s.contains(FIELD_DELIMITER),
    decreases s.len(),
{
    if s.len() > 0 {
        let p = crate::caps::apply_letter(own, whole, s[0]);
        match p {
            Some(q) => {
                lemma_decode_some_no_delim(s.skip(1), q.0, q.1);
                if s.contains(FIELD_DELIMITER) {
                    let i = choose|i: int| 0 <= i < s.len() && s[i] == FIELD_DELIMITER;
                    assert(i != 0);
                    assert(s.skip(1)[i - 1] == FIELD_DELIMITER);
                    assert(s.skip(1).contains(FIELD_DELIMITER));
                }
            },
            None => {},
        }
    }
}

/// A digit field holds no delimiter.
proof fn lemma_digits_no_delim(s: Seq<u8>)
    requires
        crate::decimal::is_digits(s),
    ensures
        !s.contains(FIELD_DELIMITER),
{
    if s.contains(FIELD_DELIMITER) {
        let i = choose|i: int| 0 <= i < s.len() && s[i] == FIELD_DELIMITER;
        assert(48 <= s[i] <= 57);
    }
}

/// A record type's tag holds no delimiter.
proof fn lemma_tag_no_delim(t: RecordType)
    ensures
        !type_tag(t).contains(FIELD_DELIMITER),
{
    let tag = type_tag(t);
    if tag.contains(FIELD_DELIMITER) {
        let i = choose|i: int| 0 <= i < tag.len() && tag[i] == FIELD_DELIMITER;
        assert(i == 0 || i == 1 || i == 2);
    }
}

/// A number field round-trips.
proof fn lemma_opt_dec_round_trip(o: Option<u64>)
    ensures
        dec_opt(opt_dec_field(o)) == o,
        !opt_dec_field(o).contains(FIELD_DELIMITER),
{
    match o {
        Some(n) => {
            crate::decimal::lemma_dec_opt_round_trip(n);
            crate::decimal::lemma_dec_digits_are_digits(n as nat);
            lemma_digits_no_delim(opt_dec_field(o));
        },
        None => {
            if opt_dec_field(o).contains(FIELD_DELIMITER) {
                let i = choose|i: int|
                    0 <= i < opt_dec_field(o).len() && opt_dec_field(o)[i] == FIELD_DELIMITER;
            }
        },
    }
}

/// No information is lost across the render/parse boundary: splitting a
/// rendered record line recovers its fields exactly, and the typed content
/// read back from those fields -- the record type, the key length, the
/// algorithm id, the expiration, the text, the capability pair, and the
/// issuer fingerprint -- equals what was rendered.
pub proof fn lemma_structural_round_trip(
    t: RecordType,
    key_length: Option<u64>,
    algorithm: Option<u64>,
    expiration: Option<u64>,
    text: Seq<u8>,
    own: CapabilitySet,
    whole: CapabilitySet,
    issuer: Seq<u8>,
)
    requires
        crate::caps::cap_encodable(own),
        crate::caps::cap_encodable(whole),
        !text.contains(FIELD_DELIMITER),
        !issuer.contains(FIELD_DELIMITER),
    ensures
        ({
            let fs = record_fields(t, key_length, algorithm, expiration, text, own, whole, issuer);
            &&& split_fields(join_fields(fs)) == fs
            &&& tag_type(fs[0]) == Some(t)
            &&& dec_opt(fs[2]) == key_length
            &&& dec_opt(fs[3]) == algorithm
            &&& dec_opt(fs[6]) == expiration
            &&& fs[9] == text
            &&& decode_caps(fs[11]) == Some((own, whole))
            &&& fs[12] == issuer
        }),
{
    let fs = record_fields(t, key_length, algorithm, expiration, text, own, whole, issuer);
    lemma_tag_no_delim(t);
    lemma_opt_dec_round_trip(key_length);
    lemma_opt_dec_round_trip(algorithm);
    lemma_opt_dec_round_trip(expiration);
    crate::caps::lemma_capability_letters_round_trip(own, whole);
    lemma_decode_some_no_delim(crate::caps::cap_letters(own, whole), crate::caps::cap_none(), crate::caps::cap_none());
    assert(!Seq::<u8>::empty().contains(FIELD_DELIMITER));
    assert(forall|i: int| 0 <= i < fs.len() ==> !(#[trigger] fs[i]).contains(FIELD_DELIMITER));
    lemma_split_join(fs);
}

/// Whether two byte strings are equal.
pub fn bytes_equal(a: &[u8], b: &[u8]) -> (r: bool)
    ensures
        r == (a@ == b@),
{
    if a.len() != b.len() {
        return false;
    }
    let n = a.len();
    let mut i: usize = 0;
    while i < n
        invariant
            0 <= i <= n,
            n == a@.len() == b@.len(),
            forall|j: int| 0 <= j < i ==> a@[j] == b@[j],
        decreases n - i,
    {
        if a[i] != b[i] {
            return false;
        }
        i = i + 1;
    }
    proof {
        assert(a@ =~= b@);
    }
    true
}

/// What a correct revocation dump shows: exactly one record, typed as a
/// standalone revocation, whose issuer fingerprint equals the master
/// key's fingerprint.
pub open spec fn spec_revocation_dump_ok(rs: Seq<StructuralRecord>, master_fp: Seq<u8>) -> bool {
    &&& rs.len() == 1
    &&& rs[0].spec_type() == RecordType::StandaloneRevocation
    &&& rs[0].field_at(12) == master_fp
}

/// Decide whether a parsed revocation dump holds exactly one standalone
/// revocation record issued by the key with fingerprint `master_fp`.
pub fn revocation_dump_matches(records: &Vec<StructuralRecord>, master_fp: &Vec<u8>) -> (r:
    bool)
    ensures
        r == spec_revocation_dump_ok(records@, master_fp@),
{
    if records.len() != 1 {
        return false;
    }
    if records[0].record_type() != RecordType::StandaloneRevocation {
        return false;
    }
    match records[0].issuer_fingerprint() {
        Some(issuer) => bytes_equal(issuer.as_slice(), master_fp.as_slice()),
        None => {
            proof {
                assert(records@[0].field_at(12) =~= Seq::<u8>::empty());
                if master_fp@.len() == 0 {
                    assert(master_fp@ =~= Seq::<u8>::empty());
                }
            }
            master_fp.len() == 0
        },
    }
}

} // verus!
