//! The identity collector's data: a display name, a syntactically valid
//! e-mail address, and the passphrase that will protect the private key
//! material.
//!
//! The passphrase is held as its own type so that it has one owner, is
//! consumed exactly once by key generation, and can be wiped from memory on
//! every exit path.

use vstd::prelude::*;

verus! {

/// Why identity collection failed.
#[derive(Clone, Copy, PartialEq, Eq, Structural, Debug)]
pub enum InputError {
    /// The input source was closed before all three fields were read.
    Truncated,
    /// The e-mail field is not a syntactically valid address.
    InvalidAddress,
}

/// A byte a field of an address may hold: printable ASCII, no whitespace.
pub open spec fn printable_ascii(b: u8) -> bool {
    33 <= b <= 126
}

/// How many times `b` occurs in `s`.
pub open spec fn count_byte(s: Seq<u8>, b: u8) -> nat
    decreases s.len(),
{
    if s.len() == 0 {
        0
    } else {
        count_byte(s.drop_last(), b) + if s.last() == b {
            1nat
        } else {
            0nat
        }
    }
}

/// A syntactically valid address: printable ASCII holding exactly one `@`,
/// with a nonempty part on each side of it.
pub open spec fn valid_email(s: Seq<u8>) -> bool {
    &&& s.len() >= 3
    &&& count_byte(s, 64) == 1
    &&& s[0] != 64
    &&& s[s.len() - 1] != 64
    &&& forall|i: int| 0 <= i < s.len() ==> printable_ascii(#[trigger] s[i])
}

/// `s` with one trailing line break (`\n` or `\r\n`) removed.
pub open spec fn trimmed(s: Seq<u8>) -> Seq<u8> {
    if s.len() > 0 && s.last() == 10 {
        let t = s.drop_last();
        if t.len() > 0 && t.last() == 13 {
            t.drop_last()
        } else {
            t
        }
    } else {
        s
    }
}

/// Remove one trailing line break (`\n` or `\r\n`) from `line`.
pub fn trim_line(line: &mut Vec<u8>)
    ensures
        final(line)@ == trimmed(old(line)@),
{
    let n = line.len();
    if n > 0 && *line.get(n - 1).unwrap() == 10 {
        line.pop();
        let m = line.len();
        if m > 0 && *line.get(m - 1).unwrap() == 13 {
            line.pop();
        }
    }
}

/// Decide whether `s` is a syntactically valid address.
pub fn check_email(s: &[u8]) -> (r: bool)
    ensures
        r == valid_email(s@),
{
    let n = s.len();
    let mut ats: usize = 0;
    let mut i: usize = 0;
    proof {
        assert(s@.take(0) =~= Seq::<u8>::empty());
    }
    while i < n
        invariant
            0 <= i <= n,
            n == s@.len(),
            ats == count_byte(s@.take(i as int), 64),
            ats <= i,
            forall|j: int| 0 <= j < i ==> printable_ascii(#[trigger] s@[j]),
        decreases n - i,
    {
        let b = s[i];
        proof {
            assert(s@.take(i as int + 1).drop_last() =~= s@.take(i as int));
            assert(s@.take(i as int + 1).last() == s@[i as int]);
        }
        if b < 33 || b > 126 {
            return false;
        }
        if b == 64 {
            ats = ats + 1;
        }
        i = i + 1;
    }
    proof {
        assert(s@.take(n as int) =~= s@);
    }
    if n < 3 {
        return false;
    }
    if ats != 1 {
        return false;
    }
    if *s.first().unwrap() == 64 {
        return false;
    }
    if *s.last().unwrap() == 64 {
        return false;
    }
    true
}

/// A collected display name and e-mail address, embedded once into the
/// master key and never changed afterwards.
#[derive(Debug)]
pub struct UserIdentity {
    name: Vec<u8>,
    email: Vec<u8>,
}

impl UserIdentity {
    /// The display name.
    pub closed spec fn spec_name(&self) -> Seq<u8> {
        self.name@
    }

    /// The e-mail address.
    pub closed spec fn spec_email(&self) -> Seq<u8> {
        self.email@
    }

    /// A well-formed identity carries a syntactically valid address.
    pub open spec fn wf(&self) -> bool {
        valid_email(self.spec_email())
    }

    /// Package a name and an address, rejecting a syntactically invalid
    /// address.
    pub fn new(name: Vec<u8>, email: Vec<u8>) -> (r: Result<UserIdentity, InputError>)
        ensures
            match r {
                Ok(id) => {
                    &&& valid_email(email@)
                    &&& id.wf()
                    &&& id.spec_name() == name@
                    &&& id.spec_email() == email@
                },
                Err(e) => e == InputError::InvalidAddress && !valid_email(email@),
            },
    {
        if check_email(email.as_slice()) {
            Ok(UserIdentity { name, email })
        } else {
            Err(InputError::InvalidAddress)
        }
    }

    /// The display name's bytes.
    pub fn name_bytes(&self) -> (r: &Vec<u8>)
        ensures
            r@ == self.spec_name(),
    {
        &self.name
    }

    /// The address's bytes.
    pub fn email_bytes(&self) -> (r: &Vec<u8>)
        ensures
            r@ == self.spec_email(),
    {
        &self.email
    }
}

/// The passphrase protecting the private key material.  It is created once
/// from collected input, consumed by the generation call, and wiped on
/// every other exit path; it is never echoed or logged.
#[derive(Debug)]
pub struct Passphrase {
    bytes: Vec<u8>,
}

impl View for Passphrase {
    type V = Seq<u8>;

    closed spec fn view(&self) -> Seq<u8> {
        self.bytes@
    }
}

impl Passphrase {
    /// Wrap collected passphrase bytes.
    pub fn new(bytes: Vec<u8>) -> (r: Passphrase)
        ensures
            r@ == bytes@,
    {
        Passphrase { bytes }
    }

    /// How many bytes the passphrase holds.
    pub fn byte_len(&self) -> (r: usize)
        ensures
            r == self@.len(),
    {
        self.bytes.len()
    }

    /// Overwrite every byte of the passphrase with zero.
    pub fn wipe(&mut self)
        ensures
            final(self)@.len() == old(self)@.len(),
            forall|i: int| 0 <= i < final(self)@.len() ==> final(self)@[i] == 0,
    {
        let n = self.bytes.len();
        let mut i: usize = 0;
        while i < n
            invariant
                0 <= i <= n,
                n == self.bytes@.len(),
                forall|j: int| 0 <= j < i ==> self.bytes@[j] == 0,
            decreases n - i,
        {
            self.bytes.set(i, 0);
            i = i + 1;
        }
    }

    /// Hand the passphrase bytes to their single consumer.
    pub fn into_bytes(self) -> (r: Vec<u8>)
        ensures
            r@ == self@,
    {
        self.bytes
    }
}

/// Package the three collected input lines, in the fixed order name,
/// address, passphrase.  Each line arrives as read, still carrying its
/// line break; `None` means the source was closed before that line.
/// Trailing line breaks are stripped; no other normalization is applied.
/// Fails before any cryptographic work: with `Truncated` if a line is
/// missing, else with `InvalidAddress` if the trimmed address is not
/// syntactically valid.
pub fn collect_identity(
    name_line: Option<Vec<u8>>,
    email_line: Option<Vec<u8>>,
    passphrase_line: Option<Vec<u8>>,
) -> (r: Result<(UserIdentity, Passphrase), InputError>)
    ensures
        match r {
            Ok(p) => {
                &&& name_line is Some
                &&& email_line is Some
                &&& passphrase_line is Some
                &&& p.0.wf()
                &&& p.0.spec_name() == trimmed(name_line->0@)
                &&& p.0.spec_email() == trimmed(email_line->0@)
                &&& p.1@ == trimmed(passphrase_line->0@)
            },
            Err(InputError::Truncated) => {
                ||| name_line is None
                ||| email_line is None
                ||| passphrase_line is None
            },
            Err(InputError::InvalidAddress) => {
                &&& name_line is Some
                &&& email_line is Some
                &&& passphrase_line is Some
                &&& !valid_email(trimmed(email_line->0@))
            },
        },
{
    let mut name = match name_line {
        Some(v) => v,
        None => {
            return Err(InputError::Truncated);
        },
    };
    let mut email = match email_line {
        Some(v) => v,
        None => {
            return Err(InputError::Truncated);
        },
    };
    let mut passphrase = match passphrase_line {
        Some(v) => v,
        None => {
            return Err(InputError::Truncated);
        },
    };
    trim_line(&mut name);
    trim_line(&mut email);
    trim_line(&mut passphrase);
    let identity = match UserIdentity::new(name, email) {
        Ok(id) => id,
        Err(e) => {
            let mut p = Passphrase::new(passphrase);
            p.wipe();
            return Err(e);
        },
    };
    Ok((identity, Passphrase::new(passphrase)))
}

} // verus!
