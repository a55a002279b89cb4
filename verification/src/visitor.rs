//! Visitor access: QR tokens for doors, check-in and check-out.

use crate::base64url;
use crate::identifier;
use crate::moment::{Moment, Timestamp};
use crate::seal;
use crate::table::{self, KeySet, Table};
use crate::text;
use crate::token::{self, QrClaims};
use vstd::prelude::*;
use vstd::string::*;

verus! {

/// What stands before the token in the content of a QR code.
pub const PAYLOAD_PREFIX: &'static str = "hhm-visitor:";

/// What goes before a receipt when its tag is computed.
pub const RECEIPT_CONTEXT: &'static str = "hhm.visitor-checkout-receipt.v1\0";

/// The longest receipt, in bytes.
pub const MAX_RECEIPT_BYTES: usize = 256;

/// The longest name of a visitor, in characters.
pub const MAX_VISITOR_NAME_CHARS: usize = 120;

/// The longest identifier of a door, in bytes.
pub const MAX_DOOR_ID_BYTES: usize = 64;

/// The longest version of the privacy notice, in characters.
pub const MAX_NOTICE_CHARS: usize = 64;

/// The shortest signing key, in bytes.
pub const MIN_KEY_BYTES: usize = 32;

/// The longest signing key, in bytes.
pub const MAX_KEY_BYTES: usize = 64;

/// The most visits that may be open.
pub const MAX_ACTIVE_VISITS: usize = 4_096;

/// The most redemptions of one token: check-ins or check-outs.
pub const MAX_REDEMPTIONS_PER_CODE: u16 = 128;

/// How long a closed visit is kept, in hours.
pub const CLOSED_VISIT_RETENTION_HOURS: u32 = 24;

/// What a token is good for.
#[derive(Clone, Copy, Debug, Eq, PartialEq, Structural)]
pub enum VisitorAction {
    CheckIn,
    CheckOut,
}

/// A request for a QR code.
#[derive(Debug)]
pub struct IssueQrRequest {
    pub door_id: String,
}

/// A QR code and when it ends.
#[derive(Debug)]
pub struct IssuedQr {
    pub action: VisitorAction,
    pub door_id: String,
    pub qr_payload: String,
    pub expires_at: Timestamp,
}

/// A request to check in.
#[derive(Debug)]
pub struct CheckInRequest {
    pub door_id: String,
    pub qr_token: String,
    pub display_name: String,
    pub privacy_notice_version: String,
}

/// What a visitor gets who checked in.
#[derive(Debug)]
pub struct CheckInReceipt {
    pub visit_id: u128,
    pub checkout_receipt: String,
    pub checked_in_at: Timestamp,
}

/// A request to check out.
#[derive(Debug)]
pub struct CheckOutRequest {
    pub door_id: String,
    pub qr_token: String,
    pub visit_id: u128,
    pub checkout_receipt: String,
}

/// What a visitor gets who checked out.
#[derive(Debug)]
pub struct CheckOutReceipt {
    pub visit_id: u128,
    pub checked_out_at: Timestamp,
}

/// Why a request was refused.
#[derive(Debug, Clone, Copy, Eq, PartialEq, Structural)]
pub enum VisitorError {
    InvalidAction,
    InvalidDoor,
    InvalidQr,
    ExpiredQr,
    NoticeNotAccepted,
    InvalidVisitorName,
    CapacityReached,
    RateLimited,
    VisitNotFound,
    InvalidReceipt,
    AlreadyCheckedOut,
}

/// The action that a path names.
pub open spec fn named_action(value: Seq<char>) -> Result<VisitorAction, VisitorError> {
    if value == "check-in"@ {
        Ok(VisitorAction::CheckIn)
    } else if value == "check-out"@ {
        Ok(VisitorAction::CheckOut)
    } else {
        Err(VisitorError::InvalidAction)
    }
}

impl VisitorAction {
    /// The name of the event that the action is logged under.
    pub open spec fn event_name(self) -> Seq<char> {
        match self {
            VisitorAction::CheckIn => "visitor.check_in"@,
            VisitorAction::CheckOut => "visitor.check_out"@,
        }
    }

    /// The name of the event that the action is logged under.
    pub fn as_event_name(self) -> (r: &'static str)
        ensures
            r@ == self.event_name(),
    {
        match self {
            VisitorAction::CheckIn => "visitor.check_in",
            VisitorAction::CheckOut => "visitor.check_out",
        }
    }

    /// The action that a path names.
    pub fn parse(value: &str) -> (r: Result<Self, VisitorError>)
        ensures
            r == named_action(value@),
    {
        if *value == *"check-in" {
            Ok(VisitorAction::CheckIn)
        } else if *value == *"check-out" {
            Ok(VisitorAction::CheckOut)
        } else {
            Err(VisitorError::InvalidAction)
        }
    }
}

impl std::str::FromStr for VisitorAction {
    type Err = VisitorError;

    fn from_str(value: &str) -> (r: Result<Self, Self::Err>)
        ensures
            r == named_action(value@),
    {
        VisitorAction::parse(value)
    }
}

/// Whether `c` may stand in the identifier of a door.
pub open spec fn door_char(c: char) -> bool {
    'a' <= c <= 'z' || '0' <= c <= '9' || c == '-' || c == '_'
}

/// Whether `s` can identify a door.
pub open spec fn door_id(s: Seq<char>) -> bool {
    &&& text::byte_len(s) <= MAX_DOOR_ID_BYTES
    &&& forall|i: int| 0 <= i < s.len() ==> door_char(#[trigger] s[i])
}

/// Whether `door` can identify a door.
pub fn valid_door_id(door: &str) -> (r: bool)
    ensures
        r == door_id(door@),
{
    if text::len_in_bytes(door) > MAX_DOOR_ID_BYTES {
        return false;
    }
    let chars: Vec<char> = text::chars_of(door);
    let mut i: usize = 0;
    while i < chars.len()
        invariant
            i <= chars.len(),
            chars@ == door@,
            forall|j: int| 0 <= j < i ==> door_char(#[trigger] door@[j]),
        decreases chars.len() - i,
    {
        let c: char = chars[i];
        if !(('a' <= c && c <= 'z') || ('0' <= c && c <= '9') || c == '-' || c == '_') {
            return false;
        }
        i += 1;
    }
    true
}

/// Why visitor access cannot be set up.
#[derive(Debug, Clone, Copy, Eq, PartialEq, Structural)]
pub enum VisitorConfigError {
    KeyMissing,
    KeyEncoding,
    KeyLength,
    DoorsMissing,
    InvalidDoorId,
    NoDoorId,
    NoticeMissing,
    InvalidNotice,
}

impl VisitorConfigError {
    /// What to tell the operator.
    pub open spec fn text(self) -> Seq<char> {
        match self {
            VisitorConfigError::KeyMissing =>
                "VISITOR_QR_SIGNING_KEY is required when visitor QR is enabled"@,
            VisitorConfigError::KeyEncoding =>
                "VISITOR_QR_SIGNING_KEY must be unpadded base64url"@,
            VisitorConfigError::KeyLength =>
                "VISITOR_QR_SIGNING_KEY must decode to between 32 and 64 bytes"@,
            VisitorConfigError::DoorsMissing =>
                "VISITOR_DOOR_IDS is required when visitor QR is enabled"@,
            VisitorConfigError::InvalidDoorId =>
                "VISITOR_DOOR_IDS contains an invalid door identifier"@,
            VisitorConfigError::NoDoorId =>
                "VISITOR_DOOR_IDS must contain at least one door identifier"@,
            VisitorConfigError::NoticeMissing =>
                "VISITOR_PRIVACY_NOTICE_VERSION is required when visitor QR is enabled"@,
            VisitorConfigError::InvalidNotice => "VISITOR_PRIVACY_NOTICE_VERSION is invalid"@,
        }
    }

    /// What to tell the operator.
    pub fn message(self) -> (r: &'static str)
        ensures
            r@ == self.text(),
    {
        match self {
            VisitorConfigError::KeyMissing =>
                "VISITOR_QR_SIGNING_KEY is required when visitor QR is enabled",
            VisitorConfigError::KeyEncoding => "VISITOR_QR_SIGNING_KEY must be unpadded base64url",
            VisitorConfigError::KeyLength =>
                "VISITOR_QR_SIGNING_KEY must decode to between 32 and 64 bytes",
            VisitorConfigError::DoorsMissing =>
                "VISITOR_DOOR_IDS is required when visitor QR is enabled",
            VisitorConfigError::InvalidDoorId =>
                "VISITOR_DOOR_IDS contains an invalid door identifier",
            VisitorConfigError::NoDoorId =>
                "VISITOR_DOOR_IDS must contain at least one door identifier",
            VisitorConfigError::NoticeMissing =>
                "VISITOR_PRIVACY_NOTICE_VERSION is required when visitor QR is enabled",
            VisitorConfigError::InvalidNotice => "VISITOR_PRIVACY_NOTICE_VERSION is invalid",
        }
    }
}

/// The doors that a comma-separated list names.
pub open spec fn doors_named(raw: Seq<char>) -> Result<Set<Seq<char>>, VisitorConfigError> {
    let named = text::entries(raw);
    if exists|i: int| 0 <= i < named.len() && !door_id(#[trigger] named[i]) {
        Err(VisitorConfigError::InvalidDoorId)
    } else if named.len() == 0 {
        Err(VisitorConfigError::NoDoorId)
    } else {
        Ok(named.to_set())
    }
}

/// The doors that a comma-separated list names.
pub fn parse_door_ids(raw: &str) -> (r: Result<KeySet<String>, VisitorConfigError>)
    ensures
        match r {
            Ok(doors) => doors.wf() && doors_named(raw@) == Ok::<_, VisitorConfigError>(doors@),
            Err(e) => doors_named(raw@) == Err::<Set<Seq<char>>, _>(e),
        },
{
    let named: Vec<&str> = text::list_entries(raw);
    let ghost all = text::entries(raw@);
    let mut doors: KeySet<String> = KeySet::new();
    let mut i: usize = 0;
    proof {
        assert(all.take(0).to_set() =~= Set::<Seq<char>>::empty());
    }
    while i < named.len()
        invariant
            i <= named.len(),
            all == text::entries(raw@),
            all == text::texts(named@),
            doors.wf(),
            doors@ == all.take(i as int).to_set(),
            forall|j: int| 0 <= j < i ==> door_id(#[trigger] all[j]),
        decreases named.len() - i,
    {
        let door: &str = named[i];
        proof {
            assert(all[i as int] == door@);
        }
        if !valid_door_id(door) {
            return Err(VisitorConfigError::InvalidDoorId);
        }
        doors.insert(door.to_owned());
        proof {
            lemma_set_of_longer(all, i as int);
        }
        i += 1;
    }
    if named.len() == 0 {
        return Err(VisitorConfigError::NoDoorId);
    }
    proof {
        assert(all.take(i as int) =~= all);
    }
    Ok(doors)
}

/// One more element of a sequence adds that element to the set of those before it.
pub proof fn lemma_set_of_longer<T>(s: Seq<T>, n: int)
    requires
        0 <= n < s.len(),
    ensures
        s.take(n + 1).to_set() == s.take(n).to_set().insert(s[n]),
{
    let short = s.take(n);
    let long = s.take(n + 1);
    assert(long =~= short.push(s[n]));
    assert forall|x: T| long.contains(x) == (short.contains(x) || x == s[n]) by {
        if short.contains(x) {
            let i = choose|i: int| 0 <= i < short.len() && short[i] == x;
            assert(long[i] == x);
        }
        if x == s[n] {
            assert(long[n] == x);
        }
        if long.contains(x) {
            let i = choose|i: int| 0 <= i < long.len() && long[i] == x;
            if i < n {
                assert(short[i] == x);
            }
        }
    }
    assert(long.to_set() =~= short.to_set().insert(s[n]));
}

/// What visitor access is set up with.
pub struct Access {
    /// The signing key.
    pub key: Seq<u8>,
    /// The doors that visitors may use.
    pub doors: Set<Seq<char>>,
    /// The version of the privacy notice that a visitor has to accept.
    pub notice: Seq<char>,
}

/// The setup that three settings give: none where all are absent, and a fault where one is
/// absent or invalid.
pub open spec fn access_from(
    key: Option<Seq<char>>,
    doors: Option<Seq<char>>,
    notice: Option<Seq<char>>,
) -> Result<Option<Access>, VisitorConfigError> {
    match (text::setting(key), text::setting(doors), text::setting(notice)) {
        (None, None, None) => Ok(None),
        (None, _, _) => Err(VisitorConfigError::KeyMissing),
        (Some(k), d, n) => match base64url::decoded(k) {
            None => Err(VisitorConfigError::KeyEncoding),
            Some(key) => if !(MIN_KEY_BYTES <= key.len() <= MAX_KEY_BYTES) {
                Err(VisitorConfigError::KeyLength)
            } else {
                match d {
                    None => Err(VisitorConfigError::DoorsMissing),
                    Some(raw) => match doors_named(raw) {
                        Err(e) => Err(e),
                        Ok(doors) => match n {
                            None => Err(VisitorConfigError::NoticeMissing),
                            Some(notice) => if text::bounded_text(
                                notice,
                                MAX_NOTICE_CHARS as nat,
                            ) {
                                Ok(Some(Access { key, doors, notice }))
                            } else {
                                Err(VisitorConfigError::InvalidNotice)
                            },
                        },
                    },
                }
            },
        },
    }
}

struct Visit {
    receipt_tag: Vec<u8>,
    display_name: Option<String>,
    checked_out_at: Option<Timestamp>,
}

/// What is kept of a visit.
pub struct Stay {
    /// The tag of the private receipt.
    pub receipt_tag: Seq<u8>,
    /// The name, until the visitor checks out.
    pub display_name: Option<Seq<char>>,
    /// When the visitor checked out.
    pub checked_out_at: Option<Moment>,
}

impl View for Visit {
    type V = Stay;

    closed spec fn view(&self) -> Stay {
        Stay {
            receipt_tag: self.receipt_tag@,
            display_name: text::opt_text(self.display_name),
            checked_out_at: match self.checked_out_at {
                Some(t) => Some(t@),
                None => None,
            },
        }
    }
}

/// What is kept of all visits.
pub struct Register {
    /// The visits.
    pub visits: Map<u128, Stay>,
    /// By the signature of a token: in which minute it was first taken, and how often it was.
    pub redemptions: Map<Seq<char>, (i64, u16)>,
}

/// A register in which nothing has happened.
pub open spec fn blank_register() -> Register {
    Register { visits: Map::empty(), redemptions: Map::empty() }
}

/// Whether a visit is still open.
pub open spec fn is_open() -> spec_fn(Stay) -> bool {
    |stay: Stay| stay.checked_out_at is None
}

/// Whether a closed visit is still kept at `now`; an open one always is.
pub open spec fn retained_at(now: Moment) -> spec_fn(Stay) -> bool {
    |stay: Stay|
        match stay.checked_out_at {
            Some(t) => !t.before(now.earlier(3600 * CLOSED_VISIT_RETENTION_HOURS as int)),
            None => true,
        }
}

/// Whether the redemptions of a token are still counted at `now`.
pub open spec fn counted_at(now: Moment) -> spec_fn((i64, u16)) -> bool {
    |entry: (i64, u16)| entry.0 >= now.minute() - 2
}

/// The number of open visits.
pub open spec fn open_visits(visits: Map<u128, Stay>) -> nat {
    table::tally(visits, is_open())
}

/// The private receipt made of two identifiers.
pub open spec fn receipt_text(first: u128, second: u128) -> Seq<char> {
    identifier::hyphenated_form(first).push('.') + identifier::hyphenated_form(second)
}

/// The tag of a receipt.
pub open spec fn tag_of_receipt(key: Seq<u8>, receipt: Seq<char>) -> Seq<u8> {
    seal::hmac_sha256(
        key,
        vstd::utf8::encode_utf8(RECEIPT_CONTEXT@) + vstd::utf8::encode_utf8(receipt),
    )
}

/// A receipt of check-in with its texts as characters.
pub struct Admission {
    pub visit_id: u128,
    pub checkout_receipt: Seq<char>,
    pub checked_in_at: Moment,
}

impl View for CheckInReceipt {
    type V = Admission;

    open spec fn view(&self) -> Admission {
        Admission {
            visit_id: self.visit_id,
            checkout_receipt: self.checkout_receipt@,
            checked_in_at: self.checked_in_at@,
        }
    }
}

/// A receipt of check-out.
pub struct Release {
    pub visit_id: u128,
    pub checked_out_at: Moment,
}

impl View for CheckOutReceipt {
    type V = Release;

    open spec fn view(&self) -> Release {
        Release { visit_id: self.visit_id, checked_out_at: self.checked_out_at@ }
    }
}

/// An answer with its texts as characters.
pub open spec fn shown<T: View>(r: Result<T, VisitorError>) -> Result<T::V, VisitorError> {
    match r {
        Ok(value) => Ok(value@),
        Err(e) => Err(e),
    }
}

/// Whether a token is good for `action` at `door` at `now`, where `claims` is what its payload
/// holds.
pub open spec fn good_for(
    access: Access,
    token: Seq<char>,
    door: Seq<char>,
    action: VisitorAction,
    now: Moment,
    claims: Option<token::Claims>,
) -> Result<(), VisitorError> {
    match token::opened(access.key, access.doors, token, door) {
        Err(e) => Err(e),
        Ok(_) => token::claims_verdict(access.doors, claims, door, action, now),
    }
}

/// The redemptions that are still counted at `now`.
pub open spec fn counted(register: Register, now: Moment) -> Map<Seq<char>, (i64, u16)> {
    table::kept(register.redemptions, counted_at(now))
}

/// How often the token with the redemption key `key` was redeemed, by `counts`.
pub open spec fn times_redeemed(counts: Map<Seq<char>, (i64, u16)>, key: Seq<char>) -> int {
    if counts.contains_key(key) {
        counts[key].1 as int
    } else {
        0
    }
}

/// `counts` after one more redemption at `now`.
pub open spec fn redeemed(counts: Map<Seq<char>, (i64, u16)>, key: Seq<char>, now: Moment) -> Map<
    Seq<char>,
    (i64, u16),
> {
    let since = if counts.contains_key(key) {
        counts[key].0
    } else {
        now.minute() as i64
    };
    counts.insert(key, (since, (times_redeemed(counts, key) + 1) as u16))
}

/// Whether a visitor with a good token who asks to check in gets as far as the visits: the
/// notice is the current one, the name is valid, and the token is not exhausted.
pub open spec fn reaches_visits(
    access: Access,
    register: Register,
    token: Seq<char>,
    name: Seq<char>,
    notice: Seq<char>,
    now: Moment,
) -> bool {
    &&& notice == access.notice
    &&& text::bounded_text(text::trimmed(name), MAX_VISITOR_NAME_CHARS as nat)
    &&& token::redemption_key(token) matches Ok(key) && times_redeemed(counted(register, now), key)
        < MAX_REDEMPTIONS_PER_CODE
}

/// What a visitor with a good token is answered who asks to check in, and the register
/// afterwards. The visit gets the identifier `visit_id`, the receipt is made of `first` and
/// `second`.
pub open spec fn admitted(
    access: Access,
    register: Register,
    token: Seq<char>,
    name: Seq<char>,
    notice: Seq<char>,
    now: Moment,
    visit_id: u128,
    first: u128,
    second: u128,
) -> (Result<Admission, VisitorError>, Register) {
    if notice != access.notice {
        (Err(VisitorError::NoticeNotAccepted), register)
    } else if !text::bounded_text(text::trimmed(name), MAX_VISITOR_NAME_CHARS as nat) {
        (Err(VisitorError::InvalidVisitorName), register)
    } else {
        match token::redemption_key(token) {
            Err(e) => (Err(e), register),
            Ok(key) => {
                let redemptions = counted(register, now);
                let visits = table::kept(register.visits, retained_at(now));
                if times_redeemed(redemptions, key) >= MAX_REDEMPTIONS_PER_CODE {
                    (Err(VisitorError::RateLimited), Register { redemptions, ..register })
                } else if open_visits(visits) >= MAX_ACTIVE_VISITS {
                    (Err(VisitorError::CapacityReached), Register { redemptions, visits })
                } else {
                    let receipt = receipt_text(first, second);
                    (
                        Ok(
                            Admission {
                                visit_id,
                                checkout_receipt: receipt,
                                checked_in_at: now,
                            },
                        ),
                        Register {
                            redemptions: redeemed(redemptions, key, now),
                            visits: visits.insert(
                                visit_id,
                                Stay {
                                    receipt_tag: tag_of_receipt(access.key, receipt),
                                    display_name: Some(text::trimmed(name)),
                                    checked_out_at: None,
                                },
                            ),
                        },
                    )
                }
            },
        }
    }
}

/// Whether `receipt` can be a receipt at all.
pub open spec fn receipt_shaped(receipt: Seq<char>) -> bool {
    0 < receipt.len() && text::byte_len(receipt) <= MAX_RECEIPT_BYTES
}

/// What a visitor with a good token is answered who asks to check out, and the register
/// afterwards. A check-out that would succeed is refused where the token is exhausted.
pub open spec fn released(
    access: Access,
    register: Register,
    token: Seq<char>,
    visit_id: u128,
    receipt: Seq<char>,
    now: Moment,
) -> (Result<Release, VisitorError>, Register) {
    let stay = register.visits[visit_id];
    if !receipt_shaped(receipt) {
        (Err(VisitorError::InvalidReceipt), register)
    } else if !register.visits.contains_key(visit_id) {
        (Err(VisitorError::VisitNotFound), register)
    } else if stay.checked_out_at is Some {
        (Err(VisitorError::AlreadyCheckedOut), register)
    } else if text::has_control(receipt) || stay.receipt_tag != tag_of_receipt(
        access.key,
        receipt,
    ) {
        (Err(VisitorError::InvalidReceipt), register)
    } else {
        match token::redemption_key(token) {
            Err(e) => (Err(e), register),
            Ok(key) => {
                let redemptions = counted(register, now);
                if times_redeemed(redemptions, key) >= MAX_REDEMPTIONS_PER_CODE {
                    (Err(VisitorError::RateLimited), Register { redemptions, ..register })
                } else {
                    (
                        Ok(Release { visit_id, checked_out_at: now }),
                        Register {
                            redemptions: redeemed(redemptions, key, now),
                            visits: register.visits.insert(
                                visit_id,
                                Stay { display_name: None, checked_out_at: Some(now), ..stay },
                            ),
                        },
                    )
                }
            },
        }
    }
}

/// When the token of `minute` ends.
pub open spec fn token_end(minute: int) -> Moment {
    Moment {
        seconds: (minute + 1) * token::QR_MINUTE_SECONDS + token::QR_GRACE_SECONDS,
        nanos: 0,
    }
}

/// Whether `r` is what is answered to the wish for a QR code for `action` at `door` at `now`.
/// Where the payload is within its bound, the token opens at its door.
pub open spec fn issued(
    access: Access,
    door: Seq<char>,
    action: VisitorAction,
    now: Moment,
    r: Result<IssuedQr, VisitorError>,
) -> bool {
    let payload = token::payload_of(token::claims_for(door, action, now.minute() as i64));
    let sealed = token::token_text(access.key, payload);
    if !access.doors.contains(door) {
        r == Err::<IssuedQr, VisitorError>(VisitorError::InvalidDoor)
    } else if !token_end(now.minute()).representable() {
        r == Err::<IssuedQr, VisitorError>(VisitorError::InvalidQr)
    } else {
        r matches Ok(qr) && {
            &&& qr.action == action
            &&& qr.door_id@ == door
            &&& qr.qr_payload@ == PAYLOAD_PREFIX@ + sealed
            &&& qr.expires_at@ == token_end(now.minute())
            &&& payload.len() <= token::MAX_PAYLOAD_BYTES ==> token::opened(
                access.key,
                access.doors,
                sealed,
                door,
            ) == Ok::<_, VisitorError>(payload)
        }
    }
}

/// Whether `r` is what is found of a token that is shown at `door` for `action` at `now`, where
/// `decode` reads its payload.
pub open spec fn verified<D: Fn(&[u8]) -> Option<QrClaims>>(
    access: Access,
    token: Seq<char>,
    door: Seq<char>,
    action: VisitorAction,
    now: Moment,
    decode: D,
    r: Result<(), VisitorError>,
) -> bool {
    match token::opened(access.key, access.doors, token, door) {
        Err(e) => r == Err::<(), VisitorError>(e),
        Ok(p) => exists|payload: &[u8], claims: Option<QrClaims>|
            {
                &&& payload@ == p
                &&& #[trigger] call_ensures(decode, (payload,), claims)
                &&& r == good_for(access, token, door, action, now, token::read_claims(claims))
            },
    }
}

/// Whether a visitor who asks to check in may get as far as the visits, by what `decode` reads.
pub open spec fn may_reach_visits<D: Fn(&[u8]) -> Option<QrClaims>>(
    access: Access,
    register: Register,
    request: CheckInRequest,
    now: Moment,
    decode: D,
) -> bool {
    &&& verified(
        access,
        request.qr_token@,
        request.door_id@,
        VisitorAction::CheckIn,
        now,
        decode,
        Ok(()),
    )
    &&& reaches_visits(
        access,
        register,
        request.qr_token@,
        request.display_name@,
        request.privacy_notice_version@,
        now,
    )
}

/// Whether `answer` and `after` are what is answered to a visitor who asks to check in, and the
/// register afterwards, where `decode` reads the payload of the token.
pub open spec fn checked_in<D: Fn(&[u8]) -> Option<QrClaims>>(
    access: Access,
    register: Register,
    request: CheckInRequest,
    now: Moment,
    decode: D,
    answer: Result<Admission, VisitorError>,
    after: Register,
) -> bool {
    let outcome = (answer, after);
    match token::opened(access.key, access.doors, request.qr_token@, request.door_id@) {
        Err(e) => outcome == (Err::<Admission, _>(e), register),
        Ok(p) => exists|payload: &[u8], claims: Option<QrClaims>|
            {
                &&& payload@ == p
                &&& #[trigger] call_ensures(decode, (payload,), claims)
                &&& match good_for(
                    access,
                    request.qr_token@,
                    request.door_id@,
                    VisitorAction::CheckIn,
                    now,
                    token::read_claims(claims),
                ) {
                    Err(e) => outcome == (Err::<Admission, _>(e), register),
                    Ok(_) => exists|visit_id: u128, first: u128, second: u128|
                        {
                            &&& #[trigger] identifier::random_version(visit_id)
                            &&& #[trigger] identifier::random_version(first)
                            &&& #[trigger] identifier::random_version(second)
                            &&& outcome == admitted(
                                access,
                                register,
                                request.qr_token@,
                                request.display_name@,
                                request.privacy_notice_version@,
                                now,
                                visit_id,
                                first,
                                second,
                            )
                        },
                }
            },
    }
}

/// Whether `answer` and `after` are what is answered to a visitor who asks to check out, and the
/// register afterwards, where `decode` reads the payload of the token.
pub open spec fn checked_out<D: Fn(&[u8]) -> Option<QrClaims>>(
    access: Access,
    register: Register,
    request: CheckOutRequest,
    now: Moment,
    decode: D,
    answer: Result<Release, VisitorError>,
    after: Register,
) -> bool {
    let outcome = (answer, after);
    match token::opened(access.key, access.doors, request.qr_token@, request.door_id@) {
        Err(e) => outcome == (Err::<Release, _>(e), register),
        Ok(p) => exists|payload: &[u8], claims: Option<QrClaims>|
            {
                &&& payload@ == p
                &&& #[trigger] call_ensures(decode, (payload,), claims)
                &&& outcome == match good_for(
                    access,
                    request.qr_token@,
                    request.door_id@,
                    VisitorAction::CheckOut,
                    now,
                    token::read_claims(claims),
                ) {
                    Err(e) => (Err::<Release, _>(e), register),
                    Ok(_) => released(
                        access,
                        register,
                        request.qr_token@,
                        request.visit_id,
                        request.checkout_receipt@,
                        now,
                    ),
                }
            },
    }
}

struct VisitorConfig {
    signing_key: Vec<u8>,
    door_ids: KeySet<String>,
    notice_version: String,
}

struct VisitorState {
    visits: Table<u128, Visit>,
    redemptions: Table<String, (i64, u16)>,
}

/// Issues QR codes for doors, and checks visitors in and out by them.
pub struct VisitorService {
    config: VisitorConfig,
    state: VisitorState,
}

impl VisitorService {
    /// What the service is set up with.
    pub closed spec fn access(&self) -> Access {
        Access {
            key: self.config.signing_key@,
            doors: self.config.door_ids@,
            notice: self.config.notice_version@,
        }
    }

    /// What is kept of the visits.
    pub closed spec fn register(&self) -> Register {
        Register { visits: self.state.visits@, redemptions: self.state.redemptions@ }
    }

    /// The tables of the service are well formed.
    pub closed spec fn wf(&self) -> bool {
        self.state.visits.wf() && self.state.redemptions.wf()
    }

    /// The service that three settings of the environment give: none where all are absent.
    pub fn from_environment(
        key: &Option<String>,
        doors: &Option<String>,
        notice: &Option<String>,
    ) -> (r: Result<Option<Self>, VisitorConfigError>)
        ensures
            ({
                let given = access_from(
                    text::opt_text(*key),
                    text::opt_text(*doors),
                    text::opt_text(*notice),
                );
                match r {
                    Ok(Some(service)) => {
                        &&& service.wf()
                        &&& given == Ok::<_, VisitorConfigError>(Some(service.access()))
                        &&& service.register() == blank_register()
                    },
                    Ok(None) => given == Ok::<_, VisitorConfigError>(None::<Access>),
                    Err(e) => given == Err::<Option<Access>, _>(e),
                }
            }),
    {
        let key: Option<String> = text::non_empty(key);
        let doors: Option<String> = text::non_empty(doors);
        let notice: Option<String> = text::non_empty(notice);
        if key.is_none() && doors.is_none() && notice.is_none() {
            return Ok(None);
        }
        let key: String = match key {
            Some(key) => key,
            None => {
                return Err(VisitorConfigError::KeyMissing);
            },
        };
        let signing_key: Vec<u8> = match base64url::decode(key.as_str()) {
            Some(bytes) => bytes,
            None => {
                return Err(VisitorConfigError::KeyEncoding);
            },
        };
        proof {
            base64url::lemma_decoded_encoded(signing_key@);
        }
        if signing_key.len() < MIN_KEY_BYTES || signing_key.len() > MAX_KEY_BYTES {
            return Err(VisitorConfigError::KeyLength);
        }
        let doors: String = match doors {
            Some(doors) => doors,
            None => {
                return Err(VisitorConfigError::DoorsMissing);
            },
        };
        let door_ids: KeySet<String> = match parse_door_ids(doors.as_str()) {
            Ok(door_ids) => door_ids,
            Err(e) => {
                return Err(e);
            },
        };
        let notice_version: String = match notice {
            Some(notice) => notice,
            None => {
                return Err(VisitorConfigError::NoticeMissing);
            },
        };
        if !text::valid_bounded_text(notice_version.as_str(), MAX_NOTICE_CHARS) {
            return Err(VisitorConfigError::InvalidNotice);
        }
        Ok(
            Some(
                VisitorService {
                    config: VisitorConfig { signing_key, door_ids, notice_version },
                    state: VisitorState { visits: Table::new(), redemptions: Table::new() },
                },
            ),
        )
    }

    /// Goes on only where the door is one of the service's.
    pub fn validate_door(&self, door_id: &str) -> (r: Result<(), VisitorError>)
        ensures
            r == if self.access().doors.contains(door_id@) {
                Ok::<(), VisitorError>(())
            } else {
                Err(VisitorError::InvalidDoor)
            },
    {
        if self.config.door_ids.contains(&door_id.to_owned()) {
            Ok(())
        } else {
            Err(VisitorError::InvalidDoor)
        }
    }

    /// The token for `action` at `door_id` in `minute`.
    pub fn issue_for_minute(&self, door_id: &str, action: VisitorAction, minute: i64) -> (r: Result<
        String,
        VisitorError,
    >)
        ensures
            ({
                let payload = token::payload_of(token::claims_for(door_id@, action, minute));
                let sealed = token::token_text(self.access().key, payload);
                &&& r matches Ok(t) && t@ == sealed
                &&& self.access().doors.contains(door_id@) && payload.len()
                    <= token::MAX_PAYLOAD_BYTES ==> token::opened(
                    self.access().key,
                    self.access().doors,
                    sealed,
                    door_id@,
                ) == Ok::<_, VisitorError>(payload)
            }),
    {
        let claims: QrClaims = token::issued_claims(door_id, action, minute);
        match token::write_claims(&claims) {
            Ok(payload) => token::seal_payload(
                self.config.signing_key.as_slice(),
                payload.as_str().as_bytes(),
            ),
            Err(e) => Err(e),
        }
    }

    /// The QR code for `action` at `door_id` at `now`.
    pub fn issue(&self, door_id: &str, action: VisitorAction, now: Timestamp) -> (r: Result<
        IssuedQr,
        VisitorError,
    >)
        ensures
            issued(self.access(), door_id@, action, now@, r),
    {
        match self.validate_door(door_id) {
            Ok(_) => {},
            Err(e) => {
                return Err(e);
            },
        }
        let minute: i64 = now.minute();
        let token_issued: String = match self.issue_for_minute(door_id, action, minute) {
            Ok(token_issued) => token_issued,
            Err(e) => {
                return Err(e);
            },
        };
        let expiry_seconds: i64 = (minute + 1) * token::QR_MINUTE_SECONDS
            + token::QR_GRACE_SECONDS;
        let expires_at: Timestamp = match Timestamp::new(expiry_seconds, 0) {
            Some(expires_at) => expires_at,
            None => {
                return Err(VisitorError::InvalidQr);
            },
        };
        let mut qr_payload: String = PAYLOAD_PREFIX.to_owned();
        qr_payload.append(token_issued.as_str());
        Ok(IssuedQr { action, door_id: door_id.to_owned(), qr_payload, expires_at })
    }

    /// Goes on only where the token is good for `action` at `door` at `now`. What the payload
    /// holds is read by `decode`, once the signature was found good.
    pub fn verify<D: Fn(&[u8]) -> Option<QrClaims>>(
        &self,
        qr_token: &str,
        door: &str,
        action: VisitorAction,
        now: Timestamp,
        decode: &D,
    ) -> (r: Result<(), VisitorError>)
        requires
            forall|payload: &[u8]| call_requires(*decode, (payload,)),
        ensures
            verified(self.access(), qr_token@, door@, action, now@, *decode, r),
    {
        let payload: Vec<u8> = match token::open_token(
            self.config.signing_key.as_slice(),
            &self.config.door_ids,
            qr_token,
            door,
        ) {
            Ok(payload) => payload,
            Err(e) => {
                return Err(e);
            },
        };
        let bytes: &[u8] = payload.as_slice();
        let claims: Option<QrClaims> = decode(bytes);
        proof {
            assert(call_ensures(*decode, (bytes,), claims));
        }
        token::check_claims(&self.config.door_ids, &claims, door, action, now)
    }

    /// The tag of a receipt.
    pub fn receipt_tag(&self, receipt: &str) -> (r: Result<Vec<u8>, VisitorError>)
        ensures
            r is Ok,
            r->Ok_0@ == tag_of_receipt(self.access().key, receipt@),
    {
        match seal::tag(
            self.config.signing_key.as_slice(),
            RECEIPT_CONTEXT.as_bytes(),
            receipt.as_bytes(),
        ) {
            Some(code) => Ok(code),
            None => Err(VisitorError::InvalidReceipt),
        }
    }

    /// Goes on only where `receipt` is within its bound, has no control character, and has the
    /// tag `expected_tag`.
    pub fn verify_receipt(&self, receipt: &str, expected_tag: &[u8]) -> (r: Result<
        (),
        VisitorError,
    >)
        ensures
            r == if text::byte_len(receipt@) <= MAX_RECEIPT_BYTES && !text::has_control(receipt@)
                && expected_tag@ == tag_of_receipt(self.access().key, receipt@) {
                Ok::<(), VisitorError>(())
            } else {
                Err(VisitorError::InvalidReceipt)
            },
    {
        if text::len_in_bytes(receipt) > MAX_RECEIPT_BYTES || text::contains_control(receipt) {
            return Err(VisitorError::InvalidReceipt);
        }
        match seal::accepts(
            self.config.signing_key.as_slice(),
            RECEIPT_CONTEXT.as_bytes(),
            receipt.as_bytes(),
            expected_tag,
        ) {
            Some(true) => Ok(()),
            _ => Err(VisitorError::InvalidReceipt),
        }
    }

    /// Forgets the redemptions that no longer count at `now`, and looks up those of `key`: since
    /// which minute there were any, and how many.
    fn count_redemptions(&mut self, key: &String, now: Timestamp) -> (r: (i64, u16))
        requires
            old(self).wf(),
        ensures
            final(self).wf(),
            final(self).access() == old(self).access(),
            final(self).register().visits == old(self).register().visits,
            final(self).register().redemptions == counted(old(self).register(), now@),
            ({
                let counts = counted(old(self).register(), now@);
                &&& r.1 == times_redeemed(counts, key@)
                &&& r.0 == if counts.contains_key(key@) {
                    counts[key@].0 as int
                } else {
                    now@.minute()
                }
            }),
    {
        let minute: i64 = now.minute();
        let counts = |entry: &(i64, u16)| -> (b: bool)
            requires
                minute >= i64::MIN + 2,
            ensures
                b == (entry.0 >= minute - 2),
            { entry.0 >= minute - 2 };
        self.state.redemptions.retain(counts, Ghost(counted_at(now@)));
        match self.state.redemptions.get(key) {
            Some(entry) => (entry.0, entry.1),
            None => (minute, 0),
        }
    }

    /// Checks a visitor in whose token was found good. The visit gets the identifier `visit_id`,
    /// the receipt is made of `first` and `second`.
    pub fn receive(
        &mut self,
        request: &CheckInRequest,
        now: Timestamp,
        visit_id: u128,
        first: u128,
        second: u128,
    ) -> (r: Result<CheckInReceipt, VisitorError>)
        requires
            old(self).wf(),
            reaches_visits(
                old(self).access(),
                old(self).register(),
                request.qr_token@,
                request.display_name@,
                request.privacy_notice_version@,
                now@,
            ) ==> now@.earlier(3600 * CLOSED_VISIT_RETENTION_HOURS as int).representable(),
        ensures
            final(self).wf(),
            final(self).access() == old(self).access(),
            (shown(r), final(self).register()) == admitted(
                old(self).access(),
                old(self).register(),
                request.qr_token@,
                request.display_name@,
                request.privacy_notice_version@,
                now@,
                visit_id,
                first,
                second,
            ),
    {
        if request.privacy_notice_version != self.config.notice_version {
            return Err(VisitorError::NoticeNotAccepted);
        }
        let name: &str = text::trim(request.display_name.as_str());
        if !text::valid_bounded_text(name, MAX_VISITOR_NAME_CHARS) {
            return Err(VisitorError::InvalidVisitorName);
        }
        let key: String = match token::qr_redemption_key(request.qr_token.as_str()) {
            Ok(key) => key,
            Err(e) => {
                return Err(e);
            },
        };
        let (since, count): (i64, u16) = self.count_redemptions(&key, now);
        if count >= MAX_REDEMPTIONS_PER_CODE {
            return Err(VisitorError::RateLimited);
        }
        let closed_before: Timestamp = now.minus_hours(CLOSED_VISIT_RETENTION_HOURS);
        let retained = |visit: &Visit| -> (b: bool)
            ensures
                b == retained_at(now@)(visit@),
            {
                match &visit.checked_out_at {
                    Some(t) => !t.is_before(&closed_before),
                    None => true,
                }
            };
        self.state.visits.retain(retained, Ghost(retained_at(now@)));
        if self.active_visit_count() >= MAX_ACTIVE_VISITS {
            return Err(VisitorError::CapacityReached);
        }
        let mut checkout_receipt: String = identifier::hyphenated_text(first);
        checkout_receipt.push('.');
        checkout_receipt.append(identifier::hyphenated_text(second).as_str());
        let receipt_tag: Vec<u8> = match self.receipt_tag(checkout_receipt.as_str()) {
            Ok(receipt_tag) => receipt_tag,
            Err(e) => {
                return Err(e);
            },
        };
        self.state.redemptions.insert(key, (since, count + 1));
        self.state.visits.insert(
            visit_id,
            Visit { receipt_tag, display_name: Some(name.to_owned()), checked_out_at: None },
        );
        Ok(CheckInReceipt { visit_id, checkout_receipt, checked_in_at: now })
    }

    /// Checks a visitor out whose token was found good.
    pub fn release(&mut self, request: &CheckOutRequest, now: Timestamp) -> (r: Result<
        CheckOutReceipt,
        VisitorError,
    >)
        requires
            old(self).wf(),
        ensures
            final(self).wf(),
            final(self).access() == old(self).access(),
            (shown(r), final(self).register()) == released(
                old(self).access(),
                old(self).register(),
                request.qr_token@,
                request.visit_id,
                request.checkout_receipt@,
                now@,
            ),
    {
        let visit_id: u128 = request.visit_id;
        let receipt: &str = request.checkout_receipt.as_str();
        if receipt.is_empty() || text::len_in_bytes(receipt) > MAX_RECEIPT_BYTES {
            return Err(VisitorError::InvalidReceipt);
        }
        match self.state.visits.get(&visit_id) {
            None => {
                return Err(VisitorError::VisitNotFound);
            },
            Some(visit) => {
                if visit.checked_out_at.is_some() {
                    return Err(VisitorError::AlreadyCheckedOut);
                }
                match self.verify_receipt(receipt, visit.receipt_tag.as_slice()) {
                    Ok(_) => {},
                    Err(e) => {
                        return Err(e);
                    },
                }
            },
        }
        let key: String = match token::qr_redemption_key(request.qr_token.as_str()) {
            Ok(key) => key,
            Err(e) => {
                return Err(e);
            },
        };
        let (since, count): (i64, u16) = self.count_redemptions(&key, now);
        if count >= MAX_REDEMPTIONS_PER_CODE {
            return Err(VisitorError::RateLimited);
        }
        self.state.redemptions.insert(key, (since, count + 1));
        match self.state.visits.remove(&visit_id) {
            Some(visit) => {
                self.state.visits.insert(
                    visit_id,
                    Visit {
                        receipt_tag: visit.receipt_tag,
                        display_name: None,
                        checked_out_at: Some(now),
                    },
                );
                proof {
                    assert(self.register().visits =~= released(
                        old(self).access(),
                        old(self).register(),
                        request.qr_token@,
                        visit_id,
                        receipt@,
                        now@,
                    ).1.visits);
                }
            },
            None => {},
        }
        Ok(CheckOutReceipt { visit_id, checked_out_at: now })
    }

    /// Checks a visitor in.
    pub fn check_in<D: Fn(&[u8]) -> Option<QrClaims>>(
        &mut self,
        request: CheckInRequest,
        now: Timestamp,
        decode: &D,
    ) -> (r: Result<CheckInReceipt, VisitorError>)
        requires
            old(self).wf(),
            may_reach_visits(
                old(self).access(),
                old(self).register(),
                request,
                now@,
                *decode,
            ) ==> now@.earlier(3600 * CLOSED_VISIT_RETENTION_HOURS as int).representable(),
            forall|payload: &[u8]| call_requires(*decode, (payload,)),
        ensures
            final(self).wf(),
            final(self).access() == old(self).access(),
            checked_in(
                old(self).access(),
                old(self).register(),
                request,
                now@,
                *decode,
                shown(r),
                final(self).register(),
            ),
    {
        match self.verify(
            request.qr_token.as_str(),
            request.door_id.as_str(),
            VisitorAction::CheckIn,
            now,
            decode,
        ) {
            Ok(_) => {},
            Err(e) => {
                return Err(e);
            },
        }
        let visit_id: u128 = identifier::draw_identifier();
        let first: u128 = identifier::draw_identifier();
        let second: u128 = identifier::draw_identifier();
        self.receive(&request, now, visit_id, first, second)
    }

    /// Checks a visitor out.
    pub fn check_out<D: Fn(&[u8]) -> Option<QrClaims>>(
        &mut self,
        request: CheckOutRequest,
        now: Timestamp,
        decode: &D,
    ) -> (r: Result<CheckOutReceipt, VisitorError>)
        requires
            old(self).wf(),
            forall|payload: &[u8]| call_requires(*decode, (payload,)),
        ensures
            final(self).wf(),
            final(self).access() == old(self).access(),
            checked_out(
                old(self).access(),
                old(self).register(),
                request,
                now@,
                *decode,
                shown(r),
                final(self).register(),
            ),
    {
        match self.verify(
            request.qr_token.as_str(),
            request.door_id.as_str(),
            VisitorAction::CheckOut,
            now,
            decode,
        ) {
            Ok(_) => {},
            Err(e) => {
                return Err(e);
            },
        }
        self.release(&request, now)
    }

    /// The number of open visits.
    pub fn active_visit_count(&self) -> (r: usize)
        requires
            self.wf(),
        ensures
            r == open_visits(self.register().visits),
    {
        let open = |visit: &Visit| -> (b: bool)
            ensures
                b == is_open()(visit@),
            { visit.checked_out_at.is_none() };
        self.state.visits.count(open, Ghost(is_open()))
    }
}

} // verus!
