//! Capability sets: which functional permissions a key carries.
//!
//! A capability set is a bitset over {certify, sign, encrypt-for-transport,
//! encrypt-at-rest, authenticate}.  The structural-dump format encodes a
//! capability field as a sequence of letters: lowercase letters describe the
//! grants of the key on that line, uppercase letters the aggregate grants of
//! the whole key bundle.

use vstd::prelude::*;

verus! {

/// A set of key capabilities.
#[derive(Clone, Copy, PartialEq, Eq, Structural, Debug)]
pub struct CapabilitySet {
    pub certify: bool,
    pub sign: bool,
    pub encrypt_transport: bool,
    pub encrypt_rest: bool,
    pub authenticate: bool,
}

/// The empty capability set.
pub open spec fn cap_none() -> CapabilitySet {
    CapabilitySet {
        certify: false,
        sign: false,
        encrypt_transport: false,
        encrypt_rest: false,
        authenticate: false,
    }
}

/// Exactly {certify}: the master key's grant.
pub open spec fn cap_certify() -> CapabilitySet {
    CapabilitySet { certify: true, ..cap_none() }
}

/// Exactly {sign}.
pub open spec fn cap_sign() -> CapabilitySet {
    CapabilitySet { sign: true, ..cap_none() }
}

/// Exactly {encrypt-for-transport, encrypt-at-rest}: the one encryption grant.
pub open spec fn cap_encrypt() -> CapabilitySet {
    CapabilitySet { encrypt_transport: true, encrypt_rest: true, ..cap_none() }
}

/// Exactly {authenticate}.
pub open spec fn cap_auth() -> CapabilitySet {
    CapabilitySet { authenticate: true, ..cap_none() }
}

/// Every capability: the whole-key aggregate of a complete bundle.
pub open spec fn cap_full() -> CapabilitySet {
    CapabilitySet {
        certify: true,
        sign: true,
        encrypt_transport: true,
        encrypt_rest: true,
        authenticate: true,
    }
}

/// The union of two capability sets.
pub open spec fn cap_union(a: CapabilitySet, b: CapabilitySet) -> CapabilitySet {
    CapabilitySet {
        certify: a.certify || b.certify,
        sign: a.sign || b.sign,
        encrypt_transport: a.encrypt_transport || b.encrypt_transport,
        encrypt_rest: a.encrypt_rest || b.encrypt_rest,
        authenticate: a.authenticate || b.authenticate,
    }
}

/// Two capability sets share no capability.
pub open spec fn cap_disjoint(a: CapabilitySet, b: CapabilitySet) -> bool {
    &&& !(a.certify && b.certify)
    &&& !(a.sign && b.sign)
    &&& !(a.encrypt_transport && b.encrypt_transport)
    &&& !(a.encrypt_rest && b.encrypt_rest)
    &&& !(a.authenticate && b.authenticate)
}

/// A capability set that the letter coding can express: the two encryption
/// capabilities travel together under the single letter for encryption.
pub open spec fn cap_encodable(c: CapabilitySet) -> bool {
    c.encrypt_transport == c.encrypt_rest
}

impl CapabilitySet {
    /// The empty capability set.
    pub fn empty() -> (r: CapabilitySet)
        ensures
            r == cap_none(),
    {
        CapabilitySet {
            certify: false,
            sign: false,
            encrypt_transport: false,
            encrypt_rest: false,
            authenticate: false,
        }
    }
}

/// One step of capability-letter decoding: fold the letter `b` into the pair
/// of sets read so far, or fail on a letter outside the coding.
pub open spec fn apply_letter(own: CapabilitySet, whole: CapabilitySet, b: u8) -> Option<
    (CapabilitySet, CapabilitySet),
> {
    if b == 99 {
        Some((CapabilitySet { certify: true, ..own }, whole))
    } else if b == 115 {
        Some((CapabilitySet { sign: true, ..own }, whole))
    } else if b == 101 {
        Some((CapabilitySet { encrypt_transport: true, encrypt_rest: true, ..own }, whole))
    } else if b == 97 {
        Some((CapabilitySet { authenticate: true, ..own }, whole))
    } else if b == 67 {
        Some((own, CapabilitySet { certify: true, ..whole }))
    } else if b == 83 {
        Some((own, CapabilitySet { sign: true, ..whole }))
    } else if b == 69 {
        Some((own, CapabilitySet { encrypt_transport: true, encrypt_rest: true, ..whole }))
    } else if b == 65 {
        Some((own, CapabilitySet { authenticate: true, ..whole }))
    } else {
        None
    }
}

/// Decode a capability field, folding letters from the left into the
/// accumulated (own-key, whole-key) pair.
pub open spec fn decode_caps_acc(
    s: Seq<u8>,
    own: CapabilitySet,
    whole: CapabilitySet,
) -> Option<(CapabilitySet, CapabilitySet)>
    decreases s.len(),
{
    if s.len() == 0 {
        Some((own, whole))
    } else {
        match apply_letter(own, whole, s[0]) {
            Some(p) => decode_caps_acc(s.skip(1), p.0, p.1),
            None => None,
        }
    }
}

/// The meaning of a capability field: lowercase letters grant to the key on
/// this line, uppercase letters to the whole bundle; any other letter is a
/// coding this parser does not understand.
pub open spec fn decode_caps(s: Seq<u8>) -> Option<(CapabilitySet, CapabilitySet)> {
    decode_caps_acc(s, cap_none(), cap_none())
}

/// The lowercase letters for the own-key grants of `c`, in the fixed order
/// certify, sign, encrypt, authenticate.
pub open spec fn lower_letters(c: CapabilitySet) -> Seq<u8> {
    (if c.certify {
        seq![99u8]
    } else {
        Seq::<u8>::empty()
    }) + (if c.sign {
        seq![115u8]
    } else {
        Seq::<u8>::empty()
    }) + (if c.encrypt_transport && c.encrypt_rest {
        seq![101u8]
    } else {
        Seq::<u8>::empty()
    }) + (if c.authenticate {
        seq![97u8]
    } else {
        Seq::<u8>::empty()
    })
}

/// The uppercase letters for the whole-key grants of `c`, in the same order.
pub open spec fn upper_letters(c: CapabilitySet) -> Seq<u8> {
    (if c.certify {
        seq![67u8]
    } else {
        Seq::<u8>::empty()
    }) + (if c.sign {
        seq![83u8]
    } else {
        Seq::<u8>::empty()
    }) + (if c.encrypt_transport && c.encrypt_rest {
        seq![69u8]
    } else {
        Seq::<u8>::empty()
    }) + (if c.authenticate {
        seq![65u8]
    } else {
        Seq::<u8>::empty()
    })
}

/// The letter coding of an (own-key, whole-key) capability pair.
pub open spec fn cap_letters(own: CapabilitySet, whole: CapabilitySet) -> Seq<u8> {
    lower_letters(own) + upper_letters(whole)
}

/// Decode a capability field into its (own-key, whole-key) pair, or `None`
/// on a letter outside the coding.
pub fn decode_capability_field(field: &[u8]) -> (r: Option<(CapabilitySet, CapabilitySet)>)
    ensures
        r == decode_caps(field@),
{
    let mut own = CapabilitySet::empty();
    let mut whole = CapabilitySet::empty();
    let n = field.len();
    let mut i: usize = 0;
    proof {
        assert(field@.skip(0) =~= field@);
    }
    while i < n
        invariant
            0 <= i <= n,
            n == field@.len(),
            decode_caps(field@) == decode_caps_acc(field@.skip(i as int), own, whole),
        decreases n - i,
    {
        let b = field[i];
        proof {
            assert(field@.skip(i as int).len() > 0);
            assert(field@.skip(i as int)[0] == field@[i as int]);
            assert(field@.skip(i as int).skip(1) =~= field@.skip(i as int + 1));
        }
        if b == 99 {
            own.certify = true;
        } else if b == 115 {
            own.sign = true;
        } else if b == 101 {
            own.encrypt_transport = true;
            own.encrypt_rest = true;
        } else if b == 97 {
            own.authenticate = true;
        } else if b == 67 {
            whole.certify = true;
        } else if b == 83 {
            whole.sign = true;
        } else if b == 69 {
            whole.encrypt_transport = true;
            whole.encrypt_rest = true;
        } else if b == 65 {
            whole.authenticate = true;
        } else {
            return None;
        }
        i = i + 1;
    }
    proof {
        assert(field@.skip(n as int) =~= Seq::<u8>::empty());
    }
    Some((own, whole))
}

/// Append the lowercase letters of `c` to `v`.
fn push_lower_letters(c: &CapabilitySet, v: &mut Vec<u8>)
    ensures
        final(v)@ == old(v)@ + lower_letters(*c),
{
    let ghost v0: Seq<u8> = v@;
    let ghost s1: Seq<u8> = if c.certify {
        seq![99u8]
    } else {
        Seq::<u8>::empty()
    };
    let ghost s2: Seq<u8> = if c.sign {
        seq![115u8]
    } else {
        Seq::<u8>::empty()
    };
    let ghost s3: Seq<u8> = if c.encrypt_transport && c.encrypt_rest {
        seq![101u8]
    } else {
        Seq::<u8>::empty()
    };
    let ghost s4: Seq<u8> = if c.authenticate {
        seq![97u8]
    } else {
        Seq::<u8>::empty()
    };
    if c.certify {
        v.push(99);
    }
    proof {
        assert(v@ =~= v0 + s1);
    }
    if c.sign {
        v.push(115);
    }
    proof {
        assert(v@ =~= v0 + s1 + s2);
    }
    if c.encrypt_transport && c.encrypt_rest {
        v.push(101);
    }
    proof {
        assert(v@ =~= v0 + s1 + s2 + s3);
    }
    if c.authenticate {
        v.push(97);
    }
    proof {
        assert(v@ =~= v0 + s1 + s2 + s3 + s4);
        assert(s1 + s2 + s3 + s4 =~= lower_letters(*c));
        assert(v@ =~= v0 + lower_letters(*c));
    }
}

/// Append the uppercase letters of `c` to `v`.
fn push_upper_letters(c: &CapabilitySet, v: &mut Vec<u8>)
    ensures
        final(v)@ == old(v)@ + upper_letters(*c),
{
    let ghost v0: Seq<u8> = v@;
    let ghost s1: Seq<u8> = if c.certify {
        seq![67u8]
    } else {
        Seq::<u8>::empty()
    };
    let ghost s2: Seq<u8> = if c.sign {
        seq![83u8]
    } else {
        Seq::<u8>::empty()
    };
    let ghost s3: Seq<u8> = if c.encrypt_transport && c.encrypt_rest {
        seq![69u8]
    } else {
        Seq::<u8>::empty()
    };
    let ghost s4: Seq<u8> = if c.authenticate {
        seq![65u8]
    } else {
        Seq::<u8>::empty()
    };
    if c.certify {
        v.push(67);
    }
    proof {
        assert(v@ =~= v0 + s1);
    }
    if c.sign {
        v.push(83);
    }
    proof {
        assert(v@ =~= v0 + s1 + s2);
    }
    if c.encrypt_transport && c.encrypt_rest {
        v.push(69);
    }
    proof {
        assert(v@ =~= v0 + s1 + s2 + s3);
    }
    if c.authenticate {
        v.push(65);
    }
    proof {
        assert(v@ =~= v0 + s1 + s2 + s3 + s4);
        assert(s1 + s2 + s3 + s4 =~= upper_letters(*c));
        assert(v@ =~= v0 + upper_letters(*c));
    }
}

/// Encode an (own-key, whole-key) capability pair as its letter field.
pub fn encode_capability_field(own: &CapabilitySet, whole: &CapabilitySet) -> (r: Vec<u8>)
    ensures
        r@ == cap_letters(*own, *whole),
{
    let mut v: Vec<u8> = Vec::new();
    push_lower_letters(own, &mut v);
    push_upper_letters(whole, &mut v);
    proof {
        assert(v@ =~= cap_letters(*own, *whole));
    }
    v
}

/// Folding a concatenation decodes the first part, then the second from
/// where the first left off.
proof fn lemma_decode_acc_append(a: Seq<u8>, b: Seq<u8>, own: CapabilitySet, whole: CapabilitySet)
    ensures
        decode_caps_acc(a + b, own, whole) == match decode_caps_acc(a, own, whole) {
            Some(p) => decode_caps_acc(b, p.0, p.1),
            None => None,
        },
    decreases a.len(),
{
    if a.len() == 0 {
        assert(a + b =~= b);
    } else {
        assert((a + b)[0] == a[0]);
        match apply_letter(own, whole, a[0]) {
            Some(p) => {
                assert((a + b).skip(1) =~= a.skip(1) + b);
                lemma_decode_acc_append(a.skip(1), b, p.0, p.1);
            },
            None => {},
        }
    }
}

/// Decoding a singleton letter is one fold step.
proof fn lemma_decode_acc_one(b: u8, own: CapabilitySet, whole: CapabilitySet)
    ensures
        match apply_letter(own, whole, b) {
            Some(p) => decode_caps_acc(seq![b], own, whole) == Some(p),
            None => true,
        },
{
    let s = seq![b];
    assert(s.len() == 1);
    assert(s[0] == b);
    assert(s.skip(1) =~= Seq::<u8>::empty());
    match apply_letter(own, whole, b) {
        Some(p) => {
            assert(decode_caps_acc(s.skip(1), p.0, p.1) == Some((p.0, p.1)));
            assert((p.0, p.1) == p);
        },
        None => {},
    }
}

/// The letter coding loses nothing: decoding the letters of an encodable
/// capability pair recovers exactly that pair.
pub proof fn lemma_capability_letters_round_trip(own: CapabilitySet, whole: CapabilitySet)
    requires
        cap_encodable(own),
        cap_encodable(whole),
    ensures
        decode_caps(cap_letters(own, whole)) == Some((own, whole)),
{
    lemma_decode_acc_append(lower_letters(own), upper_letters(whole), cap_none(), cap_none());
    lemma_lower_decode(own, cap_none());
    lemma_upper_decode(whole, own, cap_none());
}

/// Decoding the lowercase letters of an encodable set `c`, starting from
/// empty accumulators, yields exactly (`c`, unchanged whole).
proof fn lemma_lower_decode(c: CapabilitySet, whole: CapabilitySet)
    requires
        cap_encodable(c),
    ensures
        decode_caps_acc(lower_letters(c), cap_none(), whole) == Some((c, whole)),
{
    let s1: Seq<u8> = if c.certify {
        seq![99u8]
    } else {
        Seq::<u8>::empty()
    };
    let s2: Seq<u8> = if c.sign {
        seq![115u8]
    } else {
        Seq::<u8>::empty()
    };
    let s3: Seq<u8> = if c.encrypt_transport && c.encrypt_rest {
        seq![101u8]
    } else {
        Seq::<u8>::empty()
    };
    let s4: Seq<u8> = if c.authenticate {
        seq![97u8]
    } else {
        Seq::<u8>::empty()
    };
    let c1 = CapabilitySet { certify: c.certify, ..cap_none() };
    let c2 = CapabilitySet { sign: c.sign, ..c1 };
    let c3 = CapabilitySet { encrypt_transport: c.encrypt_transport, encrypt_rest: c.encrypt_rest, ..c2 };
    let c4 = CapabilitySet { authenticate: c.authenticate, ..c3 };
    assert(decode_caps_acc(s1, cap_none(), whole) == Some((c1, whole))) by {
        if c.certify {
            lemma_decode_acc_one(99u8, cap_none(), whole);
        }
    }
    assert(decode_caps_acc(s2, c1, whole) == Some((c2, whole))) by {
        if c.sign {
            lemma_decode_acc_one(115u8, c1, whole);
        }
    }
    assert(decode_caps_acc(s3, c2, whole) == Some((c3, whole))) by {
        if c.encrypt_transport && c.encrypt_rest {
            lemma_decode_acc_one(101u8, c2, whole);
        }
    }
    assert(decode_caps_acc(s4, c3, whole) == Some((c4, whole))) by {
        if c.authenticate {
            lemma_decode_acc_one(97u8, c3, whole);
        }
    }
    lemma_decode_acc_append(s3, s4, c2, whole);
    lemma_decode_acc_append(s2, s3 + s4, c1, whole);
    lemma_decode_acc_append(s1, s2 + (s3 + s4), cap_none(), whole);
    assert(lower_letters(c) =~= s1 + (s2 + (s3 + s4)));
    assert(c4 == c);
}

/// Decoding the uppercase letters of an encodable set `c` leaves the own-key
/// set unchanged and yields exactly `c` as the whole-key set.
proof fn lemma_upper_decode(c: CapabilitySet, own: CapabilitySet, whole0: CapabilitySet)
    requires
        cap_encodable(c),
        whole0 == cap_none(),
    ensures
        decode_caps_acc(upper_letters(c), own, whole0) == Some((own, c)),
{
    let s1: Seq<u8> = if c.certify {
        seq![67u8]
    } else {
        Seq::<u8>::empty()
    };
    let s2: Seq<u8> = if c.sign {
        seq![83u8]
    } else {
        Seq::<u8>::empty()
    };
    let s3: Seq<u8> = if c.encrypt_transport && c.encrypt_rest {
        seq![69u8]
    } else {
        Seq::<u8>::empty()
    };
    let s4: Seq<u8> = if c.authenticate {
        seq![65u8]
    } else {
        Seq::<u8>::empty()
    };
    let c1 = CapabilitySet { certify: c.certify, ..cap_none() };
    let c2 = CapabilitySet { sign: c.sign, ..c1 };
    let c3 = CapabilitySet { encrypt_transport: c.encrypt_transport, encrypt_rest: c.encrypt_rest, ..c2 };
    let c4 = CapabilitySet { authenticate: c.authenticate, ..c3 };
    assert(decode_caps_acc(s1, own, cap_none()) == Some((own, c1))) by {
        if c.certify {
            lemma_decode_acc_one(67u8, own, cap_none());
        }
    }
    assert(decode_caps_acc(s2, own, c1) == Some((own, c2))) by {
        if c.sign {
            lemma_decode_acc_one(83u8, own, c1);
        }
    }
    assert(decode_caps_acc(s3, own, c2) == Some((own, c3))) by {
        if c.encrypt_transport && c.encrypt_rest {
            lemma_decode_acc_one(69u8, own, c2);
        }
    }
    assert(decode_caps_acc(s4, own, c3) == Some((own, c4))) by {
        if c.authenticate {
            lemma_decode_acc_one(65u8, own, c3);
        }
    }
    lemma_decode_acc_append(s3, s4, own, c2);
    lemma_decode_acc_append(s2, s3 + s4, own, c1);
    lemma_decode_acc_append(s1, s2 + (s3 + s4), own, cap_none());
    assert(upper_letters(c) =~= s1 + (s2 + (s3 + s4)));
    assert(c4 == c);
}

} // verus!
