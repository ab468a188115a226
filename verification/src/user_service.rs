//! The user service: name and password rules, password hashing, registration
//! and authentication against a credential store.

use vstd::prelude::*;
use vstd::string::StringSliceAdditionalSpecFns;
use vstd::utf8::*;
use crate::server_database::{ServerDatabase, UserCredentials, UserCredentialsRaw};
use crate::text::{decimal, push_decimal};

verus! {

/// Why an authentication was refused. An unknown name and a wrong password
/// are told apart nowhere.
#[derive(Debug, Clone, Copy, PartialEq, Eq, Structural)]
pub enum AuthenticationError {
    WrongNameOrPassword,
}

/// Why a registration was refused.
#[derive(Debug, Clone, Copy, PartialEq, Eq, Structural)]
pub enum RegistrationError {
    IncorrectName(UserNameError),
    IncorrectPassword(PasswordError),
    NameAlreadyInUse,
}

/// What is wrong with a user name.
#[derive(Debug, Clone, Copy, PartialEq, Eq, Structural)]
pub enum UserNameError {
    /// The name is shorter than the first or longer than the second bound.
    IncorrectLength(u32, u32),
    MultipleDots,
    MultipleUnderscores,
    UnallowedCharacter,
}

/// What is wrong with a password.
#[derive(Debug, Clone, Copy, PartialEq, Eq, Structural)]
pub enum PasswordError {
    /// The password is shorter than the first or longer than the second bound.
    IncorrectLength(u32, u32),
    UnallowedCharacter,
}

impl From<UserNameError> for RegistrationError {
    fn from(value: UserNameError) -> (error: Self) {
        Self::IncorrectName(value)
    }
}

impl vstd::std_specs::convert::FromSpecImpl<UserNameError> for RegistrationError {
    open spec fn obeys_from_spec() -> bool {
        true
    }

    open spec fn from_spec(value: UserNameError) -> Self {
        RegistrationError::IncorrectName(value)
    }
}

impl From<PasswordError> for RegistrationError {
    fn from(value: PasswordError) -> (error: Self) {
        Self::IncorrectPassword(value)
    }
}

impl vstd::std_specs::convert::FromSpecImpl<PasswordError> for RegistrationError {
    open spec fn obeys_from_spec() -> bool {
        true
    }

    open spec fn from_spec(value: PasswordError) -> Self {
        RegistrationError::IncorrectPassword(value)
    }
}

/// The words for a length that is out of bounds.
pub open spec fn length_text(min: u32, max: u32) -> Seq<char> {
    "incorrect length, should be between "@ + decimal(min as nat) + " and "@ + decimal(max as nat)
}

/// The words for an authentication error.
pub open spec fn authentication_error_text(error: AuthenticationError) -> Seq<char> {
    match error {
        AuthenticationError::WrongNameOrPassword => "wrong user name or password"@,
    }
}

/// The words for a user name error.
pub open spec fn user_name_error_text(error: UserNameError) -> Seq<char> {
    match error {
        UserNameError::IncorrectLength(min, max) => length_text(min, max),
        UserNameError::MultipleDots => "cannot use multiple dots in succession"@,
        UserNameError::MultipleUnderscores => "cannot use multiple underscores in succession"@,
        UserNameError::UnallowedCharacter => {
            "unallowed character, allowed only alphanumeric ASCII symbols"@
        },
    }
}

/// The words for a password error.
pub open spec fn password_error_text(error: PasswordError) -> Seq<char> {
    match error {
        PasswordError::IncorrectLength(min, max) => length_text(min, max),
        PasswordError::UnallowedCharacter => {
            "unallowed character, allowed only graphic ASCII symbols"@
        },
    }
}

/// The words for a registration error.
pub open spec fn registration_error_text(error: RegistrationError) -> Seq<char> {
    match error {
        RegistrationError::IncorrectName(inner) => "user name error: "@ + user_name_error_text(
            inner,
        ),
        RegistrationError::IncorrectPassword(inner) => "password error: "@ + password_error_text(
            inner,
        ),
        RegistrationError::NameAlreadyInUse => "name is already taken"@,
    }
}

fn length_message(min: u32, max: u32) -> (text: String)
    ensures
        text@ == length_text(min, max),
{
    let mut text = String::from_str("incorrect length, should be between ");
    push_decimal(&mut text, min);
    text.append(" and ");
    push_decimal(&mut text, max);
    text
}

impl AuthenticationError {
    /// The error in words.
    pub fn message(&self) -> (text: String)
        ensures
            text@ == authentication_error_text(*self),
    {
        String::from_str("wrong user name or password")
    }
}

impl UserNameError {
    /// The error in words.
    pub fn message(&self) -> (text: String)
        ensures
            text@ == user_name_error_text(*self),
    {
        match self {
            UserNameError::IncorrectLength(min, max) => length_message(*min, *max),
            UserNameError::MultipleDots => String::from_str(
                "cannot use multiple dots in succession",
            ),
            UserNameError::MultipleUnderscores => String::from_str(
                "cannot use multiple underscores in succession",
            ),
            UserNameError::UnallowedCharacter => String::from_str(
                "unallowed character, allowed only alphanumeric ASCII symbols",
            ),
        }
    }
}

impl PasswordError {
    /// The error in words.
    pub fn message(&self) -> (text: String)
        ensures
            text@ == password_error_text(*self),
    {
        match self {
            PasswordError::IncorrectLength(min, max) => length_message(*min, *max),
            PasswordError::UnallowedCharacter => String::from_str(
                "unallowed character, allowed only graphic ASCII symbols",
            ),
        }
    }
}

impl RegistrationError {
    /// The error in words.
    pub fn message(&self) -> (text: String)
        ensures
            text@ == registration_error_text(*self),
    {
        match self {
            RegistrationError::IncorrectName(inner) => {
                let mut text = String::from_str("user name error: ");
                text.append(inner.message().as_str());
                text
            },
            RegistrationError::IncorrectPassword(inner) => {
                let mut text = String::from_str("password error: ");
                text.append(inner.message().as_str());
                text
            },
            RegistrationError::NameAlreadyInUse => String::from_str("name is already taken"),
        }
    }
}

/// The shortest and the longest user name, in bytes.
pub const NAME_MIN: usize = 7;

pub const NAME_MAX: usize = 32;

/// The shortest and the longest password, in bytes.
pub const PASSWORD_MIN: usize = 8;

pub const PASSWORD_MAX: usize = 32;

pub const DOT: u8 = 0x2e;

pub const UNDERSCORE: u8 = 0x5f;

/// An ASCII letter or digit.
pub open spec fn is_alphanumeric(byte: u8) -> bool {
    (0x30 <= byte <= 0x39) || (0x41 <= byte <= 0x5a) || (0x61 <= byte <= 0x7a)
}

/// An ASCII character that leaves a mark: anything from `!` to `~`.
pub open spec fn is_graphic(byte: u8) -> bool {
    0x21 <= byte <= 0x7e
}

/// What is wrong with the byte at `at`, seen together with the byte before
/// it: a byte outside the alphabet, or a dot or underscore that repeats its
/// predecessor.
pub open spec fn name_fault_at(name: Seq<u8>, at: int) -> Option<UserNameError> {
    let byte = name[at];
    if is_alphanumeric(byte) {
        None
    } else if byte == DOT {
        if at > 0 && name[at - 1] == DOT {
            Some(UserNameError::MultipleDots)
        } else {
            None
        }
    } else if byte == UNDERSCORE {
        if at > 0 && name[at - 1] == UNDERSCORE {
            Some(UserNameError::MultipleUnderscores)
        } else {
            None
        }
    } else {
        Some(UserNameError::UnallowedCharacter)
    }
}

/// The fault of the first faulty byte at or after `from`.
pub open spec fn first_name_fault(name: Seq<u8>, from: int) -> Option<UserNameError>
    decreases name.len() - from,
{
    if from < 0 || from >= name.len() {
        None
    } else if name_fault_at(name, from) is Some {
        name_fault_at(name, from)
    } else {
        first_name_fault(name, from + 1)
    }
}

/// What is wrong with a name given by its bytes, `None` for a name that may be
/// registered. The length is judged first, then the bytes from left to right.
pub open spec fn name_error(name: Seq<u8>) -> Option<UserNameError> {
    if name.len() < NAME_MIN || name.len() > NAME_MAX {
        Some(UserNameError::IncorrectLength(7, 32))
    } else {
        first_name_fault(name, 0)
    }
}

/// A name that may be registered: 7 to 32 bytes, each an ASCII letter, a
/// digit, a dot or an underscore, with no dot next to a dot and no
/// underscore next to an underscore.
pub open spec fn valid_name(name: Seq<u8>) -> bool {
    &&& NAME_MIN <= name.len() <= NAME_MAX
    &&& forall|i: int|
        0 <= i < name.len() ==> is_alphanumeric(#[trigger] name[i]) || name[i] == DOT || name[i]
            == UNDERSCORE
    &&& forall|i: int|
        0 < i < name.len() ==> !(#[trigger] name[i] == DOT && name[i - 1] == DOT)
    &&& forall|i: int|
        0 < i < name.len() ==> !(#[trigger] name[i] == UNDERSCORE && name[i - 1] == UNDERSCORE)
}

/// What is wrong with a password given by its bytes, `None` for a password
/// that may be used.
pub open spec fn password_error(password: Seq<u8>) -> Option<PasswordError> {
    if password.len() < PASSWORD_MIN || password.len() > PASSWORD_MAX {
        Some(PasswordError::IncorrectLength(8, 32))
    } else if exists|i: int| 0 <= i < password.len() && !is_graphic(#[trigger] password[i]) {
        Some(PasswordError::UnallowedCharacter)
    } else {
        None
    }
}

/// A password that may be used: 8 to 32 graphic ASCII bytes.
pub open spec fn valid_password(password: Seq<u8>) -> bool {
    &&& PASSWORD_MIN <= password.len() <= PASSWORD_MAX
    &&& forall|i: int| 0 <= i < password.len() ==> is_graphic(#[trigger] password[i])
}

/// The result that goes with a finding: `Ok` where nothing was found wrong.
pub open spec fn verdict<E>(finding: Option<E>) -> Result<(), E> {
    match finding {
        Some(error) => Err(error),
        None => Ok(()),
    }
}

/// No byte from `from` on is faulty exactly if the scan from there finds
/// nothing.
pub proof fn lemma_first_name_fault(name: Seq<u8>, from: int)
    requires
        0 <= from,
    ensures
        first_name_fault(name, from) is None <==> forall|i: int|
            from <= i < name.len() ==> name_fault_at(name, i) is None,
    decreases name.len() - from,
{
    if from < name.len() {
        lemma_first_name_fault(name, from + 1);
    }
}

/// The names without an error are the valid names.
pub proof fn lemma_name_error_none_iff_valid(name: Seq<u8>)
    ensures
        name_error(name) is None <==> valid_name(name),
{
    lemma_first_name_fault(name, 0);
    if valid_name(name) {
        assert forall|i: int| 0 <= i < name.len() implies name_fault_at(name, i) is None by {
            let _ = name[i];
        }
    }
    if name_error(name) is None {
        assert forall|i: int| 0 <= i < name.len() implies is_alphanumeric(#[trigger] name[i])
            || name[i] == DOT || name[i] == UNDERSCORE by {
            assert(name_fault_at(name, i) is None);
        }
        assert forall|i: int| 0 < i < name.len() implies !(#[trigger] name[i] == DOT && name[i
            - 1] == DOT) by {
            assert(name_fault_at(name, i) is None);
        }
        assert forall|i: int| 0 < i < name.len() implies !(#[trigger] name[i] == UNDERSCORE
            && name[i - 1] == UNDERSCORE) by {
            assert(name_fault_at(name, i) is None);
        }
    }
}

/// The passwords without an error are the valid passwords.
pub proof fn lemma_password_error_none_iff_valid(password: Seq<u8>)
    ensures
        password_error(password) is None <==> valid_password(password),
{
}

fn alphanumeric(byte: u8) -> (yes: bool)
    ensures
        yes == is_alphanumeric(byte),
{
    (0x30 <= byte && byte <= 0x39) || (0x41 <= byte && byte <= 0x5a) || (0x61 <= byte && byte
        <= 0x7a)
}

/// The length of a bcrypt hash string, in characters.
pub const HASH_LEN: usize = 60;

/// Whether `pwhash::bcrypt::verify` accepts `password` for `hash`.
pub uninterp spec fn bcrypt_verifies(password: Seq<char>, hash: Seq<char>) -> bool;

/// A hash string that can be handed to the verification: ASCII without
/// control characters.
pub open spec fn plain_hash(hash: Seq<char>) -> bool {
    &&& is_ascii_chars(hash)
    &&& forall|i: int| 0 <= i < hash.len() ==> 0x20 <= #[trigger] hash[i] as u32
}

/// `pwhash::bcrypt::verify`: whether `hash` is the bcrypt hash of `password`
/// under the salt and cost that `hash` itself names. The answer depends on
/// the two strings alone. Control characters and characters beyond ASCII in
/// `hash` are kept out: the decoding of the salt subtracts 0x20 from each
/// character and looks the rest up in a table of 96 entries.
#[verifier::external_body]
fn bcrypt_verify(password: &str, hash: &str) -> (accepted: bool)
    requires
        plain_hash(hash@),
    ensures
        accepted == bcrypt_verifies(password@, hash@),
{
    pwhash::bcrypt::verify(password, hash)
}

/// `pwhash::bcrypt::hash`: a bcrypt hash string of `password` under a salt
/// drawn afresh. Whatever the salt, the string has 60 characters (`$2b$`,
/// the cost in two digits, `$`, 22 for the salt and 31 for the checksum), all
/// of them `$`, `.`, `/`, letters or digits, and `verify` accepts it for the
/// same password. The function draws the salt and formats the string; it
/// ends in `Ok` on every path.
#[verifier::external_body]
fn bcrypt_hash(password: &str) -> (hash: String)
    ensures
        hash@.len() == HASH_LEN,
        plain_hash(hash@),
        bcrypt_verifies(password@, hash@),
{
    pwhash::bcrypt::hash(password).expect("system rng should be available")
}

/// Whether a stored hash vouches for a password.
pub open spec fn password_matches(password: Seq<char>, hash: Seq<char>) -> bool {
    plain_hash(hash) && bcrypt_verifies(password, hash)
}

/// How an authentication ends against the given records.
pub open spec fn authentication_outcome(
    records: Map<Seq<char>, Seq<char>>,
    name: Seq<char>,
    password: Seq<char>,
) -> Result<(), AuthenticationError> {
    if records.contains_key(name) && password_matches(password, records[name]) {
        Ok(())
    } else {
        Err(AuthenticationError::WrongNameOrPassword)
    }
}

/// Why a registration is refused against the given records, `None` where it
/// goes through. The name is judged first, then looked up, and only then is
/// the password judged.
pub open spec fn registration_error(
    records: Map<Seq<char>, Seq<char>>,
    name: Seq<char>,
    password: Seq<char>,
) -> Option<RegistrationError> {
    if name_error(encode_utf8(name)) is Some {
        Some(RegistrationError::IncorrectName(name_error(encode_utf8(name))->0))
    } else if records.contains_key(name) {
        Some(RegistrationError::NameAlreadyInUse)
    } else if password_error(encode_utf8(password)) is Some {
        Some(RegistrationError::IncorrectPassword(password_error(encode_utf8(password))->0))
    } else {
        None
    }
}

/// What a registration does: a refused one leaves the records as they were; an
/// accepted one adds the name, with a hash that vouches for the password and
/// is not the password itself, and changes nothing else.
pub open spec fn registration_step(
    before: Map<Seq<char>, Seq<char>>,
    name: Seq<char>,
    password: Seq<char>,
    result: Result<(), RegistrationError>,
    after: Map<Seq<char>, Seq<char>>,
) -> bool {
    match registration_error(before, name, password) {
        Some(error) => result == Err::<(), RegistrationError>(error) && after == before,
        None => {
            &&& result is Ok
            &&& after.contains_key(name)
            &&& after == before.insert(name, after[name])
            &&& password_matches(password, after[name])
            &&& after[name] != password
        },
    }
}

/// A valid name that is not in use registers with a valid password, and the
/// same name and password authenticate afterwards.
pub proof fn law_authenticates_after_registration(
    before: Map<Seq<char>, Seq<char>>,
    name: Seq<char>,
    password: Seq<char>,
    result: Result<(), RegistrationError>,
    after: Map<Seq<char>, Seq<char>>,
)
    requires
        valid_name(encode_utf8(name)),
        valid_password(encode_utf8(password)),
        !before.contains_key(name),
        registration_step(before, name, password, result, after),
    ensures
        result is Ok,
        authentication_outcome(after, name, password) is Ok,
{
    lemma_name_error_none_iff_valid(encode_utf8(name));
    lemma_password_error_none_iff_valid(encode_utf8(password));
}

/// After a registration that went through, a registration under the same
/// name is refused as `NameAlreadyInUse`, whatever its password, and changes
/// nothing.
pub proof fn law_second_registration_refused(
    before: Map<Seq<char>, Seq<char>>,
    name: Seq<char>,
    first_password: Seq<char>,
    between: Map<Seq<char>, Seq<char>>,
    second_password: Seq<char>,
    result: Result<(), RegistrationError>,
    after: Map<Seq<char>, Seq<char>>,
)
    requires
        registration_step(before, name, first_password, Ok(()), between),
        registration_step(between, name, second_password, result, after),
    ensures
        result == Err::<(), RegistrationError>(RegistrationError::NameAlreadyInUse),
        after == between,
{
}

/// A name that fails validation is refused as `IncorrectName`, with the
/// name's own fault, whatever the records hold, and the records stay as they
/// were.
pub proof fn law_invalid_name_refused(
    before: Map<Seq<char>, Seq<char>>,
    name: Seq<char>,
    password: Seq<char>,
    result: Result<(), RegistrationError>,
    after: Map<Seq<char>, Seq<char>>,
)
    requires
        !valid_name(encode_utf8(name)),
        registration_step(before, name, password, result, after),
    ensures
        name_error(encode_utf8(name)) matches Some(error) && result == Err::<
            (),
            RegistrationError,
        >(RegistrationError::IncorrectName(error)),
        after == before,
{
    lemma_name_error_none_iff_valid(encode_utf8(name));
}

/// The line that tells whether a user is on record.
pub open spec fn user_line(records: Map<Seq<char>, Seq<char>>, name: Seq<char>) -> Seq<char> {
    if records.contains_key(name) {
        "User found: "@ + name + ":"@ + records[name]
    } else {
        "User not found"@
    }
}

/// Registration and authentication over a credential store.
pub struct UserService<T: ServerDatabase> {
    db: T,
}

impl<T: ServerDatabase> UserService<T> {
    /// The records of the store behind the service.
    pub closed spec fn records(&self) -> Map<Seq<char>, Seq<char>> {
        self.db.records()
    }

    /// A service over the given store.
    pub fn new(database: T) -> (service: Self)
        ensures
            service.records() == database.records(),
    {
        Self { db: database }
    }

    /// Says in a line whether a user is on record, and with which hash.
    pub fn check_user(&self, name: &str) -> (line: String)
        ensures
            line@ == user_line(self.records(), name@),
    {
        match self.db.get_user_by_name(name) {
            Some(user_credentials) => {
                let mut line = String::from_str("User found: ");
                line.append(user_credentials.name.as_str());
                line.append(":");
                line.append(user_credentials.password_hash.as_str());
                line
            },
            None => String::from_str("User not found"),
        }
    }

    /// Authenticates a name and password against the store.
    pub fn authenticate_user(&self, user_credentials_raw: &UserCredentialsRaw) -> (result: Result<
        (),
        AuthenticationError,
    >)
        ensures
            result == authentication_outcome(
                self.records(),
                user_credentials_raw.name@,
                user_credentials_raw.password@,
            ),
    {
        match self.db.get_user_by_name(user_credentials_raw.name.as_str()) {
            Some(user_credentials) => {
                if Self::is_plain_hash(user_credentials.password_hash.as_str()) && bcrypt_verify(
                    user_credentials_raw.password.as_str(),
                    user_credentials.password_hash.as_str(),
                ) {
                    Ok(())
                } else {
                    Err(AuthenticationError::WrongNameOrPassword)
                }
            },
            None => Err(AuthenticationError::WrongNameOrPassword),
        }
    }

    /// Registers a name with a password: judges the name, looks it up, judges
    /// the password, hashes it and stores the record.
    pub fn add_user(&mut self, user_credentials_raw: &UserCredentialsRaw) -> (result: Result<
        (),
        RegistrationError,
    >)
        ensures
            registration_step(
                old(self).records(),
                user_credentials_raw.name@,
                user_credentials_raw.password@,
                result,
                final(self).records(),
            ),
    {
        if let Err(error) = Self::verify_name(user_credentials_raw.name.as_str()) {
            return Err(RegistrationError::from(error));
        }
        if self.db.get_user_by_name(user_credentials_raw.name.as_str()).is_some() {
            return Err(RegistrationError::NameAlreadyInUse);
        }
        if let Err(error) = Self::verify_password(user_credentials_raw.password.as_str()) {
            return Err(RegistrationError::from(error));
        }
        let password_hash = bcrypt_hash(user_credentials_raw.password.as_str());
        proof {
            // the hash is longer than any password that passes
            is_ascii_chars_encode_utf8(password_hash@);
        }
        let user_credentials = UserCredentials {
            name: user_credentials_raw.name.clone(),
            password_hash,
        };
        self.db.add_new_user(&user_credentials);
        Ok(())
    }

    /// Whether a stored hash can be handed to the verification.
    fn is_plain_hash(hash: &str) -> (plain: bool)
        ensures
            plain == plain_hash(hash@),
    {
        if !hash.is_ascii() {
            return false;
        }
        proof {
            vstd::string::is_ascii_spec_bytes(hash);
        }
        let bytes = hash.as_bytes();
        let mut i: usize = 0;
        while i < bytes.len()
            invariant
                i <= bytes@.len(),
                bytes@.len() == hash@.len(),
                is_ascii_chars(hash@),
                forall|j: int| 0 <= j < bytes@.len() ==> bytes@[j] == hash@[j] as u8,
                forall|j: int| 0 <= j < i ==> 0x20 <= #[trigger] hash@[j] as u32,
            decreases bytes@.len() - i,
        {
            if bytes[i] < 0x20 {
                return false;
            }
            i = i + 1;
        }
        true
    }

    /// Judges a user name.
    pub fn verify_name(name: &str) -> (result: Result<(), UserNameError>)
        ensures
            result == verdict(name_error(name.spec_bytes())),
    {
        let bytes = name.as_bytes();
        let length = bytes.len();
        if length < NAME_MIN || length > NAME_MAX {
            return Err(UserNameError::IncorrectLength(7, 32));
        }
        let mut was_dot = false;
        let mut was_underscore = false;
        let mut i: usize = 0;
        while i < length
            invariant
                i <= length,
                length == bytes@.len(),
                bytes@ == name.spec_bytes(),
                NAME_MIN <= length <= NAME_MAX,
                was_dot == (i > 0 && bytes@[i - 1] == DOT),
                was_underscore == (i > 0 && bytes@[i - 1] == UNDERSCORE),
                first_name_fault(bytes@, 0) == first_name_fault(bytes@, i as int),
            decreases length - i,
        {
            let byte = bytes[i];
            if alphanumeric(byte) {
                was_dot = false;
                was_underscore = false;
            } else if byte == DOT {
                if was_dot {
                    return Err(UserNameError::MultipleDots);
                }
                was_dot = true;
                was_underscore = false;
            } else if byte == UNDERSCORE {
                if was_underscore {
                    return Err(UserNameError::MultipleUnderscores);
                }
                was_underscore = true;
                was_dot = false;
            } else {
                return Err(UserNameError::UnallowedCharacter);
            }
            i = i + 1;
        }
        Ok(())
    }

    /// Judges a password.
    pub fn verify_password(password: &str) -> (result: Result<(), PasswordError>)
        ensures
            result == verdict(password_error(password.spec_bytes())),
    {
        let bytes = password.as_bytes();
        let length = bytes.len();
        if length < PASSWORD_MIN || length > PASSWORD_MAX {
            return Err(PasswordError::IncorrectLength(8, 32));
        }
        let mut i: usize = 0;
        while i < length
            invariant
                i <= length,
                length == bytes@.len(),
                bytes@ == password.spec_bytes(),
                PASSWORD_MIN <= length <= PASSWORD_MAX,
                forall|j: int| 0 <= j < i ==> is_graphic(#[trigger] bytes@[j]),
            decreases length - i,
        {
            let byte = bytes[i];
            if !(0x21 <= byte && byte <= 0x7e) {
                return Err(PasswordError::UnallowedCharacter);
            }
            i = i + 1;
        }
        Ok(())
    }
}

} // verus!
