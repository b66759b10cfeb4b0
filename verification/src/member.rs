use vstd::prelude::*;

use crate::MembershipError;
use crate::codec::{hex_digit_str, i64_to_be_bytes, spec_hex_digit, spec_i64_be};
use crate::hash::HashProvider;

verus! {

/// The mathematical shape of a member record.
pub ghost struct MemberView {
    pub id: Seq<char>,
    pub email: Seq<char>,
    pub join_date: i64,
    pub end_date: Option<i64>,
    pub padding: Option<Seq<u8>>,
}

/// A registrant of the committed set. Created at registration time and
/// immutable afterwards; consumed only by the canonical encoding and the
/// leaf hash. Timestamps are Unix seconds.
pub struct Member {
    pub id: String,
    email: String,
    join_date: i64,
    end_date: Option<i64>,
    padding: Option<Vec<u8>>,
}

impl Clone for Member {
    fn clone(&self) -> (r: Self)
        ensures
            r@ == self@,
    {
        Member {
            id: self.id.clone(),
            email: self.email.clone(),
            join_date: self.join_date,
            end_date: self.end_date,
            padding: match &self.padding {
                Some(p) => Some(p.clone()),
                None => None,
            },
        }
    }
}

impl View for Member {
    type V = MemberView;

    closed spec fn view(&self) -> MemberView {
        MemberView {
            id: self.id@,
            email: self.email@,
            join_date: self.join_date,
            end_date: self.end_date,
            padding: match self.padding {
                Some(p) => Some(p@),
                None => None,
            },
        }
    }
}

/// The canonical byte encoding of a record: id bytes, then email bytes,
/// then the join date as eight big-endian bytes, then a presence flag and,
/// if present, eight big-endian bytes for the end date, then a presence
/// flag and, if present, the padding bytes. The optional fields carry
/// explicit presence flags so that distinct field values cannot collide;
/// the variable-length fields rely on the leaf hash's fixed input capacity
/// rather than embedded lengths, so an encoding must never exceed that
/// capacity.
pub open spec fn spec_member_encoding(m: MemberView) -> Seq<u8> {
    vstd::utf8::encode_utf8(m.id) + vstd::utf8::encode_utf8(m.email) + spec_i64_be(m.join_date) + (
    match m.end_date {
        Some(d) => seq![1u8] + spec_i64_be(d),
        None => seq![0u8],
    }) + (match m.padding {
        Some(p) => seq![1u8] + p,
        None => seq![0u8],
    })
}

/// Relies on std::time::SystemTime for the wall-clock time at registration;
/// nothing is assumed about the value returned. The branch makes the read
/// total: a clock set before the Unix epoch comes back as a negative
/// offset instead of a panic, which chrono's own clock entry points would
/// raise on such a clock.
#[verifier::external_body]
fn now_unix() -> i64 {
    match std::time::SystemTime::now().duration_since(std::time::UNIX_EPOCH) {
        Ok(d) => d.as_secs() as i64,
        Err(e) => (e.duration().as_secs() as i64).wrapping_neg(),
    }
}

impl Member {
    /// A new record joining now, with no padding.
    pub fn new(id: String, email: String, end_date: Option<i64>) -> (r: Self)
        ensures
            r@.id == id@,
            r@.email == email@,
            r@.end_date == end_date,
            r@.padding is None,
    {
        Self { id, email, join_date: now_unix(), end_date, padding: None }
    }

    /// A new record joining now, padded with `pad` zero bytes so that
    /// differently sized records can be brought to one encoded length.
    pub fn new_with_padding(id: String, email: String, end_date: Option<i64>, pad: usize) -> (r:
        Self)
        ensures
            r@.id == id@,
            r@.email == email@,
            r@.end_date == end_date,
            r@.padding == Some(Seq::new(pad as nat, |i: int| 0u8)),
    {
        let padding: Vec<u8> = vec![0u8; pad];
        proof {
            assert(padding@ =~= Seq::new(pad as nat, |i: int| 0u8));
        }
        Self { id, email, join_date: now_unix(), end_date, padding: Some(padding) }
    }

    /// A record with every field given, the join date included; this is how
    /// a record read back from transport is rebuilt.
    pub fn from_parts(
        id: String,
        email: String,
        join_date: i64,
        end_date: Option<i64>,
        padding: Option<Vec<u8>>,
    ) -> (r: Self)
        ensures
            r@.id == id@,
            r@.email == email@,
            r@.join_date == join_date,
            r@.end_date == end_date,
            r@.padding is Some <==> padding is Some,
            padding is Some ==> r@.padding == Some(padding.unwrap()@),
    {
        Self { id, email, join_date, end_date, padding }
    }

    /// Whether a record has the sentinel filler shape: empty id and email,
    /// no end date, no padding.
    pub open spec fn is_sentinel(m: MemberView) -> bool {
        m.id.len() == 0 && m.email.len() == 0 && m.end_date is None && m.padding is None
    }

    /// The sentinel filler record in full: the one fixed record used to pad
    /// every tree. Its join date is pinned to the epoch so that padding
    /// hashes deterministically — tree construction stays a pure function
    /// of the member list, the same commitment on every rebuild.
    pub open spec fn spec_sentinel() -> MemberView {
        MemberView {
            id: Seq::empty(),
            email: Seq::empty(),
            join_date: 0,
            end_date: None,
            padding: None,
        }
    }

    pub fn email(&self) -> (r: &String)
        ensures
            r@ == self@.email,
    {
        &self.email
    }

    pub fn join_date(&self) -> (r: i64)
        ensures
            r == self@.join_date,
    {
        self.join_date
    }

    pub fn end_date(&self) -> (r: Option<i64>)
        ensures
            r == self@.end_date,
    {
        self.end_date
    }

    pub fn padding(&self) -> (r: &Option<Vec<u8>>)
        ensures
            r is Some <==> self@.padding is Some,
            r is Some ==> r.unwrap()@ == self@.padding.unwrap(),
    {
        &self.padding
    }

    /// The canonical encoding, as bytes ready for the leaf hash.
    pub fn to_bytes(&self) -> (r: Vec<u8>)
        ensures
            r@ == spec_member_encoding(self@),
    {
        let mut bytes: Vec<u8> = Vec::new();
        bytes.extend_from_slice(self.id.as_str().as_bytes());
        bytes.extend_from_slice(self.email.as_str().as_bytes());
        let jd = i64_to_be_bytes(self.join_date);
        bytes.extend_from_slice(jd.as_slice());
        match &self.end_date {
            Some(d) => {
                bytes.push(1u8);
                let db = i64_to_be_bytes(*d);
                bytes.extend_from_slice(db.as_slice());
            },
            None => {
                bytes.push(0u8);
            },
        }
        match &self.padding {
            Some(p) => {
                bytes.push(1u8);
                bytes.extend_from_slice(p.as_slice());
            },
            None => {
                bytes.push(0u8);
            },
        }
        proof {
            assert(bytes@ =~= spec_member_encoding(self@));
        }
        bytes
    }

    /// The record's leaf digest under the given provider. An encoding
    /// larger than the leaf hash's capacity is a fatal encoding error,
    /// never a silent truncation.
    pub fn hash<H: HashProvider>(&self, h: &H) -> (r: Result<Vec<u8>, MembershipError>)
        ensures
            r is Ok <==> spec_member_encoding(self@).len() <= h.leaf_capacity(),
            r is Err ==> r == Err::<Vec<u8>, MembershipError>(MembershipError::OverCapacity),
            r is Ok ==> r.unwrap()@ == h.leaf_hash_spec(spec_member_encoding(self@))
                && r.unwrap()@.len() == h.digest_len(),
    {
        let bytes = self.to_bytes();
        if bytes.len() <= h.leaf_capacity_bytes() {
            Ok(h.leaf_hash(bytes.as_slice()))
        } else {
            Err(MembershipError::OverCapacity)
        }
    }
}

impl Default for Member {
    /// The sentinel filler record: empty id and email, the epoch join
    /// date, no end date, no padding. It is hashed like any other record
    /// when a tree is padded to a power of two; its join date is a fixed
    /// value, not a clock reading, so the padding digests — and with them
    /// the root — are the same on every rebuild of the same member list.
    fn default() -> (r: Self)
        ensures
            r@ == Member::spec_sentinel(),
            Member::is_sentinel(r@),
    {
        Member { id: String::new(), email: String::new(), join_date: 0, end_date: None, padding: None }
    }
}

/// The decimal digits of a number, most significant first.
pub open spec fn spec_decimal(n: nat) -> Seq<char>
    decreases n,
{
    if n < 10 {
        seq![spec_hex_digit((n % 10) as u8)]
    } else {
        spec_decimal(n / 10).push(spec_hex_digit((n % 10) as u8))
    }
}

/// A number as its decimal string.
pub fn u32_to_string(n: u32) -> (r: String)
    ensures
        r@ == spec_decimal(n as nat),
    decreases n,
{
    if n < 10 {
        String::from_str(hex_digit_str((n % 10) as u8))
    } else {
        let mut s = u32_to_string(n / 10);
        s.append(hex_digit_str((n % 10) as u8));
        proof {
            assert(s@ =~= spec_decimal(n as nat));
        }
        s
    }
}

/// The generated test population's view: member `k` (counting from one) has
/// the decimal id `k` and the email `k@usc.edu`.
pub open spec fn is_generated_member(m: MemberView, k: nat) -> bool {
    &&& m.id == spec_decimal(k)
    &&& m.email == spec_decimal(k) + "@usc.edu"@
    &&& m.end_date is None
}

/// Append `amount` synthetic members numbered from one, without padding.
pub fn generate_members(members: &mut Vec<Member>, amount: u32)
    ensures
        final(members)@.len() == old(members)@.len() + amount,
        forall|k: int|
            0 <= k < amount ==> {
                let m = (#[trigger] final(members)@[old(members)@.len() + k])@;
                is_generated_member(m, (k + 1) as nat) && m.padding is None
            },
        forall|k: int| 0 <= k < old(members)@.len() ==> final(members)@[k] == old(members)@[k],
{
    let base = members.len();
    let mut i: u32 = 0;
    while i < amount
        invariant
            base == old(members)@.len(),
            i <= amount,
            members@.len() == base + i,
            forall|k: int|
                0 <= k < i ==> {
                    let m = (#[trigger] members@[base + k])@;
                    is_generated_member(m, (k + 1) as nat) && m.padding is None
                },
            forall|k: int| 0 <= k < base ==> members@[k] == old(members)@[k],
        decreases amount - i,
    {
        let id = u32_to_string(i + 1);
        let email = u32_to_string(i + 1).concat("@usc.edu");
        members.push(Member::new(id, email, None));
        i += 1;
    }
}

/// Append `amount` synthetic members numbered from one, each padded with
/// `padding` zero bytes.
pub fn generate_members_with_padding(members: &mut Vec<Member>, amount: u32, padding: usize)
    ensures
        final(members)@.len() == old(members)@.len() + amount,
        forall|k: int|
            0 <= k < amount ==> {
                let m = (#[trigger] final(members)@[old(members)@.len() + k])@;
                is_generated_member(m, (k + 1) as nat) && m.padding == Some(
                    Seq::new(padding as nat, |j: int| 0u8),
                )
            },
        forall|k: int| 0 <= k < old(members)@.len() ==> final(members)@[k] == old(members)@[k],
{
    let base = members.len();
    let mut i: u32 = 0;
    while i < amount
        invariant
            base == old(members)@.len(),
            i <= amount,
            members@.len() == base + i,
            forall|k: int|
                0 <= k < i ==> {
                    let m = (#[trigger] members@[base + k])@;
                    is_generated_member(m, (k + 1) as nat) && m.padding == Some(
                        Seq::new(padding as nat, |j: int| 0u8),
                    )
                },
            forall|k: int| 0 <= k < base ==> members@[k] == old(members)@[k],
        decreases amount - i,
    {
        let id = u32_to_string(i + 1);
        let email = u32_to_string(i + 1).concat("@usc.edu");
        members.push(Member::new_with_padding(id, email, None, padding));
        i += 1;
    }
}

} // verus!
