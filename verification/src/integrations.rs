//! How a connected GitHub account is kept: its token encrypted, its scopes as
//! JSON.
use crate::cloud_api_types::{ConnectedAccount, GitHubConnectedAccount};
use crate::outside::cipher::{
    base64_bytes, base64_decode, base64_encode, base64_text, encodable, open, opened, random_nonce,
    seal, sealed, sha256, sha256_digest, LONGEST_PLAINTEXT,
};
use crate::outside::json::{json_array, json_texts, read_texts, write_texts};
use crate::outside::std_text::from_utf8;
use crate::models::outcome;
use crate::text::{halves, lemma_position, position, split_once};
use vstd::prelude::*;
use vstd::string::*;
use vstd::utf8::*;

verus! {

/// Why a connected account could not be kept or read.
#[derive(Clone, Copy, Debug, PartialEq, Eq, Structural)]
pub enum IntegrationError {
    /// The token is too long for the cipher.
    EncryptionFailed,
    /// No colon stands between a nonce and a ciphertext.
    InvalidToken,
    /// The nonce is not base64.
    InvalidNonce,
    /// The ciphertext is not base64.
    InvalidCiphertext,
    /// The ciphertext was not made with this secret.
    DecryptionFailed,
    /// What was encrypted is not text.
    InvalidUtf8,
    /// The scopes are not a JSON array of strings.
    InvalidScopes,
}

/// What is said of an error.
pub open spec fn integration_message(error: IntegrationError) -> Seq<char> {
    match error {
        IntegrationError::EncryptionFailed => "failed to encrypt GitHub access token"@,
        IntegrationError::InvalidToken => "invalid encrypted GitHub access token"@,
        IntegrationError::InvalidNonce => "invalid GitHub token nonce"@,
        IntegrationError::InvalidCiphertext => "invalid GitHub token ciphertext"@,
        IntegrationError::DecryptionFailed => "failed to decrypt GitHub access token"@,
        IntegrationError::InvalidUtf8 => "GitHub access token is not valid UTF-8"@,
        IntegrationError::InvalidScopes => "failed to parse GitHub integration scopes"@,
    }
}

impl IntegrationError {
    /// What is said of the error.
    pub fn message(&self) -> (result: &'static str)
        ensures
            result@ == integration_message(*self),
            self is EncryptionFailed ==> result@ == "failed to encrypt GitHub access token"@,
            self is InvalidToken ==> result@ == "invalid encrypted GitHub access token"@,
            self is InvalidNonce ==> result@ == "invalid GitHub token nonce"@,
            self is InvalidCiphertext ==> result@ == "invalid GitHub token ciphertext"@,
            self is DecryptionFailed ==> result@ == "failed to decrypt GitHub access token"@,
            self is InvalidUtf8 ==> result@ == "GitHub access token is not valid UTF-8"@,
            self is InvalidScopes ==> result@ == "failed to parse GitHub integration scopes"@,
    {
        match self {
            IntegrationError::EncryptionFailed => "failed to encrypt GitHub access token",
            IntegrationError::InvalidToken => "invalid encrypted GitHub access token",
            IntegrationError::InvalidNonce => "invalid GitHub token nonce",
            IntegrationError::InvalidCiphertext => "invalid GitHub token ciphertext",
            IntegrationError::DecryptionFailed => "failed to decrypt GitHub access token",
            IntegrationError::InvalidUtf8 => "GitHub access token is not valid UTF-8",
            IntegrationError::InvalidScopes => "failed to parse GitHub integration scopes",
        }
    }
}

/// The key that a secret stands for.
pub open spec fn key_of(encryption_secret: Seq<char>) -> Seq<u8> {
    sha256_digest(encode_utf8(encryption_secret))
}

/// The key that `encryption_secret` stands for.
pub fn encryption_key(encryption_secret: &str) -> (result: Vec<u8>)
    ensures
        result@ == key_of(encryption_secret@),
        result@ == sha256_digest(encode_utf8(encryption_secret@)),
        result@.len() == 32,
{
    sha256(encryption_secret.as_bytes())
}

/// Whether the base64 text of the encrypted token fits in memory.
pub open spec fn storable(access_token: Seq<char>) -> bool {
    encodable(encode_utf8(access_token).len() + 16)
}

/// How a token is kept, whose nonce and ciphertext are written as given.
pub open spec fn token_text(nonce: Seq<char>, ciphertext: Seq<char>) -> Seq<char> {
    nonce + ":"@ + ciphertext
}

/// How a token is kept, whose nonce and ciphertext are written as given.
pub fn write_token(nonce: &str, ciphertext: &str) -> (result: String)
    ensures
        result@ == token_text(nonce@, ciphertext@),
        result@ == nonce@ + ":"@ + ciphertext@,
{
    let mut result = nonce.to_owned();
    result.append(":");
    result.append(ciphertext);
    result
}

/// `access_token` encrypted under `encryption_secret` and `nonce`.
pub open spec fn encrypted_token(
    access_token: Seq<char>,
    encryption_secret: Seq<char>,
    nonce: Seq<u8>,
) -> Result<Seq<char>, IntegrationError> {
    let plaintext = encode_utf8(access_token);
    if plaintext.len() <= LONGEST_PLAINTEXT {
        Ok(
            token_text(
                base64_text(nonce),
                base64_text(sealed(key_of(encryption_secret), nonce, plaintext)),
            ),
        )
    } else {
        Err(IntegrationError::EncryptionFailed)
    }
}

/// What the plaintext of a token says, or why there is none.
pub open spec fn token_of(plaintext: Option<Seq<u8>>) -> Result<Seq<char>, IntegrationError> {
    match plaintext {
        None => Err(IntegrationError::DecryptionFailed),
        Some(bytes) => if valid_utf8(bytes) {
            Ok(decode_utf8(bytes))
        } else {
            Err(IntegrationError::InvalidUtf8)
        },
    }
}

/// A token's nonce and ciphertext, or why it has none, where `nonce` and
/// `ciphertext` are what its two halves decode to.
pub open spec fn parts_of(
    nonce: Option<Seq<u8>>,
    ciphertext: Option<Seq<u8>>,
) -> Result<(Seq<u8>, Seq<u8>), IntegrationError> {
    match (nonce, ciphertext) {
        (None, _) => Err(IntegrationError::InvalidNonce),
        (Some(_), None) => Err(IntegrationError::InvalidCiphertext),
        (Some(nonce), Some(ciphertext)) => Ok((nonce, ciphertext)),
    }
}

/// The nonce and ciphertext that `encrypted` holds, or why it holds none.
pub open spec fn encrypted_parts(encrypted: Seq<char>) -> Result<
    (Seq<u8>, Seq<u8>),
    IntegrationError,
> {
    match halves(encrypted, ':') {
        None => Err(IntegrationError::InvalidToken),
        Some((nonce, ciphertext)) => parts_of(base64_bytes(nonce), base64_bytes(ciphertext)),
    }
}

/// Whether `encrypted` fails before a nonce is needed or holds a nonce of the
/// cipher's length.
pub open spec fn decryptable(encrypted: Seq<char>) -> bool {
    encrypted_parts(encrypted) matches Ok((nonce, ciphertext)) ==> nonce.len() == 12
}

/// What `encrypted` says under `encryption_secret`, or why it says nothing.
pub open spec fn decrypted_token(encrypted: Seq<char>, encryption_secret: Seq<char>) -> Result<
    Seq<char>,
    IntegrationError,
> {
    match encrypted_parts(encrypted) {
        Err(error) => Err(error),
        Ok((nonce, ciphertext)) => token_of(opened(key_of(encryption_secret), nonce, ciphertext)),
    }
}

/// Encrypts `access_token` under `encryption_secret` and a nonce of twelve
/// bytes.
pub fn encrypt_with_nonce(access_token: &str, encryption_secret: &str, nonce: &Vec<u8>) -> (result:
    Result<String, IntegrationError>)
    requires
        nonce@.len() == 12,
        storable(access_token@),
    ensures
        outcome(result) == encrypted_token(access_token@, encryption_secret@, nonce@),
        result is Ok <==> encode_utf8(access_token@).len() <= LONGEST_PLAINTEXT,
        result matches Err(error) ==> error == IntegrationError::EncryptionFailed,
        result matches Ok(encrypted) ==> encrypted@ == base64_text(nonce@) + ":"@ + base64_text(
            sealed(
                sha256_digest(encode_utf8(encryption_secret@)),
                nonce@,
                encode_utf8(access_token@),
            ),
        ),
        result matches Ok(encrypted) ==> {
            &&& decrypted_token(encrypted@, encryption_secret@) == Ok::<_, IntegrationError>(
                access_token@,
            )
            &&& decryptable(encrypted@)
        },
{
    broadcast use {encode_utf8_valid_utf8, encode_utf8_decode_utf8};

    let key = encryption_key(encryption_secret);
    match seal(key.as_slice(), nonce.as_slice(), access_token.as_bytes()) {
        Ok(ciphertext) => {
            let head = base64_encode(nonce.as_slice());
            let tail = base64_encode(ciphertext.as_slice());
            let encrypted = write_token(&head, &tail);
            proof {
                reveal_strlit(":");
                lemma_halves_of_join(head@, tail@, ':');
                assert(head@ + ":"@ + tail@ == head@.push(':') + tail@);
            }
            Ok(encrypted)
        },
        Err(_) => Err(IntegrationError::EncryptionFailed),
    }
}

/// A text that is joined of two by a separator that the first does not hold is
/// split there into the same two.
pub proof fn lemma_halves_of_join(head: Seq<char>, tail: Seq<char>, c: char)
    requires
        !head.contains(c),
    ensures
        halves(head.push(c) + tail, c) == Some((head, tail)),
{
    let whole = head.push(c) + tail;
    lemma_position(whole, c);
    assert(whole[head.len() as int] == c);
    assert forall|i: int| 0 <= i < head.len() implies whole[i] != c by {
        assert(head.contains(head[i]));
    }
    assert(position(whole, c) == head.len());
    assert(whole.take(head.len() as int) == head);
    assert(whole.skip(head.len() as int + 1) == tail);
}

/// A token whose nonce and ciphertext can be read is refused under a secret if and
/// only if the cipher refuses them under that secret's key: under a secret for which
/// the cipher finds the tag wrong, no token and no other error comes out.
pub proof fn lemma_refused_under_secret(
    encrypted: Seq<char>,
    nonce: Seq<u8>,
    ciphertext: Seq<u8>,
    encryption_secret: Seq<char>,
)
    requires
        encrypted_parts(encrypted) == Ok::<_, IntegrationError>((nonce, ciphertext)),
    ensures
        opened(key_of(encryption_secret), nonce, ciphertext) is None <==> decrypted_token(
            encrypted,
            encryption_secret,
        ) == Err::<Seq<char>, _>(IntegrationError::DecryptionFailed),
{
}

/// Encrypts `access_token` under `encryption_secret` and a nonce drawn at
/// random.
pub fn encrypt_access_token(access_token: &str, encryption_secret: &str) -> (result: Result<
    String,
    IntegrationError,
>)
    requires
        storable(access_token@),
    ensures
        exists|nonce: Seq<u8>|
            #![trigger encrypted_token(access_token@, encryption_secret@, nonce)]
            nonce.len() == 12 && outcome(result) == encrypted_token(
                access_token@,
                encryption_secret@,
                nonce,
            ),
        result is Ok <==> encode_utf8(access_token@).len() <= LONGEST_PLAINTEXT,
        result matches Ok(encrypted) ==> {
            &&& decrypted_token(encrypted@, encryption_secret@) == Ok::<_, IntegrationError>(
                access_token@,
            )
            &&& decryptable(encrypted@)
        },
{
    let nonce = random_nonce();
    encrypt_with_nonce(access_token, encryption_secret, &nonce)
}

/// The nonce and ciphertext of a token, where `nonce` and `ciphertext` are what
/// its two halves decode to.
pub fn decoded_parts(nonce: Option<Vec<u8>>, ciphertext: Option<Vec<u8>>) -> (result: Result<
    (Vec<u8>, Vec<u8>),
    IntegrationError,
>)
    ensures
        outcome(result) == parts_of(nonce.deep_view(), ciphertext.deep_view()),
        nonce is None ==> result == Err::<(Vec<u8>, Vec<u8>), _>(IntegrationError::InvalidNonce),
        nonce is Some && ciphertext is None ==> result == Err::<(Vec<u8>, Vec<u8>), _>(
            IntegrationError::InvalidCiphertext,
        ),
        nonce is Some && ciphertext is Some ==> result == Ok::<_, IntegrationError>(
            (nonce->0, ciphertext->0),
        ),
{
    match nonce {
        None => Err(IntegrationError::InvalidNonce),
        Some(nonce) => match ciphertext {
            None => Err(IntegrationError::InvalidCiphertext),
            Some(ciphertext) => Ok((nonce, ciphertext)),
        },
    }
}

/// The token that a plaintext says.
pub fn token_from_plaintext(plaintext: Option<Vec<u8>>) -> (result: Result<
    String,
    IntegrationError,
>)
    ensures
        outcome(result) == token_of(plaintext.deep_view()),
        match plaintext {
            None => result matches Err(error) && error == IntegrationError::DecryptionFailed,
            Some(bytes) => if valid_utf8(bytes@) {
                result matches Ok(token) && token@ == decode_utf8(bytes@)
            } else {
                result matches Err(error) && error == IntegrationError::InvalidUtf8
            },
        },
{
    match plaintext {
        None => Err(IntegrationError::DecryptionFailed),
        Some(bytes) => {
            assert(bytes.deep_view() == bytes@);
            match from_utf8(bytes) {
                Some(token) => Ok(token),
                None => Err(IntegrationError::InvalidUtf8),
            }
        },
    }
}

/// The nonce and ciphertext that an encrypted token holds.
pub fn token_parts(encrypted_access_token: &str) -> (result: Result<
    (Vec<u8>, Vec<u8>),
    IntegrationError,
>)
    ensures
        outcome(result) == encrypted_parts(encrypted_access_token@),
        match halves(encrypted_access_token@, ':') {
            None => result matches Err(error) && error == IntegrationError::InvalidToken,
            Some((nonce, ciphertext)) => match base64_bytes(nonce) {
                None => result matches Err(error) && error == IntegrationError::InvalidNonce,
                Some(nonce) => match base64_bytes(ciphertext) {
                    None => result matches Err(error) && error
                        == IntegrationError::InvalidCiphertext,
                    Some(ciphertext) => result matches Ok((read, rest)) && read@ == nonce
                        && rest@ == ciphertext,
                },
            },
        },
{
    match split_once(encrypted_access_token, ':') {
        None => Err(IntegrationError::InvalidToken),
        Some((nonce, ciphertext)) => {
            let nonce: Option<Vec<u8>> = match base64_decode(&nonce) {
                Ok(bytes) => {
                    assert(bytes.deep_view() == bytes@);
                    Some(bytes)
                },
                Err(_) => None,
            };
            let ciphertext: Option<Vec<u8>> = match base64_decode(&ciphertext) {
                Ok(bytes) => {
                    assert(bytes.deep_view() == bytes@);
                    Some(bytes)
                },
                Err(_) => None,
            };
            decoded_parts(nonce, ciphertext)
        },
    }
}

/// Decrypts a token. One whose nonce has not twelve bytes is left out.
pub fn decrypt_access_token(encrypted_access_token: &str, encryption_secret: &str) -> (result:
    Result<String, IntegrationError>)
    requires
        decryptable(encrypted_access_token@),
    ensures
        outcome(result) == decrypted_token(encrypted_access_token@, encryption_secret@),
        match halves(encrypted_access_token@, ':') {
            None => result matches Err(error) && error == IntegrationError::InvalidToken,
            Some((nonce, ciphertext)) => match base64_bytes(nonce) {
                None => result matches Err(error) && error == IntegrationError::InvalidNonce,
                Some(nonce) => match base64_bytes(ciphertext) {
                    None => result matches Err(error) && error
                        == IntegrationError::InvalidCiphertext,
                    Some(ciphertext) => match opened(
                        sha256_digest(encode_utf8(encryption_secret@)),
                        nonce,
                        ciphertext,
                    ) {
                        None => result matches Err(error) && error
                            == IntegrationError::DecryptionFailed,
                        Some(bytes) => if valid_utf8(bytes) {
                            result matches Ok(token) && token@ == decode_utf8(bytes)
                        } else {
                            result matches Err(error) && error == IntegrationError::InvalidUtf8
                        },
                    },
                },
            },
        },
{
    match token_parts(encrypted_access_token) {
        Err(error) => Err(error),
        Ok((nonce, ciphertext)) => {
            assert(nonce.deep_view() == nonce@);
            assert(ciphertext.deep_view() == ciphertext@);
            let key = encryption_key(encryption_secret);
            let plaintext: Option<Vec<u8>> = match open(
                key.as_slice(),
                nonce.as_slice(),
                ciphertext.as_slice(),
            ) {
                Ok(bytes) => {
                    assert(bytes.deep_view() == bytes@);
                    Some(bytes)
                },
                Err(_) => None,
            };
            token_from_plaintext(plaintext)
        },
    }
}

/// Decrypts a token, or returns `None` for one whose nonce has not twelve
/// bytes.
pub fn checked_decrypt_access_token(
    encrypted_access_token: &str,
    encryption_secret: &str,
) -> (result: Option<Result<String, IntegrationError>>)
    ensures
        match result {
            Some(token) => decryptable(encrypted_access_token@) && outcome(token)
                == decrypted_token(encrypted_access_token@, encryption_secret@),
            None => !decryptable(encrypted_access_token@),
        },
{
    match token_parts(encrypted_access_token) {
        Ok((nonce, _)) => {
            assert(nonce.deep_view() == nonce@);
            if nonce.len() != 12 {
                return None;
            }
        },
        Err(_) => {},
    }
    Some(decrypt_access_token(encrypted_access_token, encryption_secret))
}

/// What is kept of a connected account.
#[derive(Clone, Debug, PartialEq, Eq)]
pub struct GitHubIntegrationRow {
    pub login: String,
    pub scopes_json: String,
    pub encrypted_access_token: String,
}

/// What a `GitHubIntegrationRow` holds.
#[verifier::ext_equal]
pub struct IntegrationRow {
    pub login: Seq<char>,
    pub scopes_json: Seq<char>,
    pub encrypted_access_token: Seq<char>,
}

impl DeepView for GitHubIntegrationRow {
    type V = IntegrationRow;

    open spec fn deep_view(&self) -> IntegrationRow {
        IntegrationRow {
            login: self.login@,
            scopes_json: self.scopes_json@,
            encrypted_access_token: self.encrypted_access_token@,
        }
    }
}

/// The row that keeps an account, where `token` is its encrypted token or why it has
/// none, and `scopes_json` its scopes as JSON.
pub open spec fn row_with(
    login: Seq<char>,
    scopes_json: Seq<char>,
    token: Result<Seq<char>, IntegrationError>,
) -> Result<IntegrationRow, IntegrationError> {
    match token {
        Err(error) => Err(error),
        Ok(encrypted_access_token) => Ok(
            IntegrationRow { login, scopes_json, encrypted_access_token },
        ),
    }
}

/// The row that keeps an account, where `token` is its encrypted token or why it has
/// none, and `scopes_json` its scopes as JSON.
pub fn assemble_row(
    login: String,
    scopes_json: String,
    token: Result<String, IntegrationError>,
) -> (result: Result<GitHubIntegrationRow, IntegrationError>)
    ensures
        outcome(result) == row_with(login@, scopes_json@, outcome(token)),
        match token {
            Err(error) => result == Err::<GitHubIntegrationRow, _>(error),
            Ok(encrypted) => result == Ok::<_, IntegrationError>(
                GitHubIntegrationRow { login, scopes_json, encrypted_access_token: encrypted },
            ),
        },
{
    match token {
        Err(error) => Err(error),
        Ok(encrypted_access_token) => Ok(
            GitHubIntegrationRow { login, scopes_json, encrypted_access_token },
        ),
    }
}

/// The row that keeps `account` under `encryption_secret` and `nonce`.
pub open spec fn row_of(account: ConnectedAccount, encryption_secret: Seq<char>, nonce: Seq<u8>) -> Result<
    IntegrationRow,
    IntegrationError,
> {
    row_with(
        account.login,
        json_array(account.scopes),
        encrypted_token(account.access_token, encryption_secret, nonce),
    )
}

/// The account that `row` keeps, where `token` and `scopes` are what its token
/// and its scopes say.
pub open spec fn account_of(
    login: Seq<char>,
    token: Result<Seq<char>, IntegrationError>,
    scopes: Option<Seq<Seq<char>>>,
) -> Result<ConnectedAccount, IntegrationError> {
    match (token, scopes) {
        (Err(error), _) => Err(error),
        (Ok(_), None) => Err(IntegrationError::InvalidScopes),
        (Ok(access_token), Some(scopes)) => Ok(ConnectedAccount { login, scopes, access_token }),
    }
}

/// The account that is kept, if there is a row.
pub open spec fn found_account(row: Option<IntegrationRow>, encryption_secret: Seq<char>) -> Result<
    Option<ConnectedAccount>,
    IntegrationError,
> {
    match row {
        None => Ok(None),
        Some(row) => match kept_account(row, encryption_secret) {
            Ok(account) => Ok(Some(account)),
            Err(error) => Err(error),
        },
    }
}

/// The account that `row` keeps under `encryption_secret`.
pub open spec fn kept_account(row: IntegrationRow, encryption_secret: Seq<char>) -> Result<
    ConnectedAccount,
    IntegrationError,
> {
    account_of(
        row.login,
        decrypted_token(row.encrypted_access_token, encryption_secret),
        json_texts(row.scopes_json),
    )
}

/// The row that keeps a connected account, made with a nonce drawn at random.
/// Reading the row back under the same secret yields the account.
pub fn upsert_github_integration(
    login: String,
    scopes: Vec<String>,
    access_token: String,
    encryption_secret: &str,
) -> (result: Result<GitHubIntegrationRow, IntegrationError>)
    requires
        storable(access_token@),
    ensures
        ({
            let account = ConnectedAccount {
                login: login@,
                scopes: scopes.deep_view(),
                access_token: access_token@,
            };
            &&& result is Ok <==> encode_utf8(access_token@).len() <= LONGEST_PLAINTEXT
            &&& match result {
                Err(error) => error == IntegrationError::EncryptionFailed,
                Ok(row) => {
                    &&& exists|nonce: Seq<u8>|
                        #![trigger row_of(account, encryption_secret@, nonce)]
                        nonce.len() == 12 && row_of(account, encryption_secret@, nonce) == outcome(
                            result,
                        )
                    &&& decryptable(row.encrypted_access_token@)
                    &&& kept_account(row.deep_view(), encryption_secret@) == Ok::<
                        _,
                        IntegrationError,
                    >(account)
                },
            }
        }),
        result matches Ok(row) ==> {
            &&& row.login@ == login@
            &&& row.scopes_json@ == json_array(scopes.deep_view())
            &&& json_texts(row.scopes_json@) == Some(scopes.deep_view())
            &&& decrypted_token(row.encrypted_access_token@, encryption_secret@) == Ok::<
                _,
                IntegrationError,
            >(access_token@)
        },
{
    let ghost account = ConnectedAccount {
        login: login@,
        scopes: scopes.deep_view(),
        access_token: access_token@,
    };
    let token = encrypt_access_token(&access_token, encryption_secret);
    let scopes_json = match write_texts(&scopes) {
        Ok(json) => json,
        Err(_) => return Err(IntegrationError::InvalidScopes),
    };
    let ghost encrypted = outcome(token);
    let row = assemble_row(login, scopes_json, token);
    proof {
        let nonce = choose|nonce: Seq<u8>|
            #![trigger encrypted_token(access_token@, encryption_secret@, nonce)]
            nonce.len() == 12 && encrypted_token(access_token@, encryption_secret@, nonce)
                == encrypted;
        assert(row_of(account, encryption_secret@, nonce) == outcome(row));
    }
    row
}

/// The account of a row, from what its token and its scopes say.
pub fn assemble_account(
    login: String,
    token: Result<String, IntegrationError>,
    scopes: Option<Vec<String>>,
) -> (result: Result<GitHubConnectedAccount, IntegrationError>)
    ensures
        outcome(result) == account_of(login@, outcome(token), scopes.deep_view()),
        match token {
            Err(error) => result == Err::<GitHubConnectedAccount, _>(error),
            Ok(access_token) => match scopes {
                None => result == Err::<GitHubConnectedAccount, _>(IntegrationError::InvalidScopes),
                Some(scopes) => result == Ok::<_, IntegrationError>(
                    GitHubConnectedAccount { login, scopes, access_token },
                ),
            },
        },
{
    match token {
        Err(error) => Err(error),
        Ok(access_token) => match scopes {
            None => Err(IntegrationError::InvalidScopes),
            Some(scopes) => Ok(GitHubConnectedAccount { login, scopes, access_token }),
        },
    }
}

/// The account that a row keeps, if there is a row. A row whose nonce has not
/// twelve bytes is left out.
pub fn get_github_integration(row: Option<GitHubIntegrationRow>, encryption_secret: &str) -> (result:
    Result<Option<GitHubConnectedAccount>, IntegrationError>)
    requires
        row matches Some(row) ==> decryptable(row.encrypted_access_token@),
    ensures
        outcome(result) == found_account(row.deep_view(), encryption_secret@),
        row is None ==> (result matches Ok(account) && account is None),
        row matches Some(row) ==> match result {
            Ok(account) => account matches Some(account) && {
                &&& account.login@ == row.login@
                &&& json_texts(row.scopes_json@) == Some(account.scopes.deep_view())
                &&& decrypted_token(row.encrypted_access_token@, encryption_secret@) == Ok::<
                    _,
                    IntegrationError,
                >(account.access_token@)
            },
            Err(error) => match decrypted_token(row.encrypted_access_token@, encryption_secret@) {
                Err(problem) => error == problem,
                Ok(_) => error == IntegrationError::InvalidScopes && json_texts(row.scopes_json@)
                    is None,
            },
        },
{
    match row {
        None => Ok(None),
        Some(row) => {
            let token = decrypt_access_token(&row.encrypted_access_token, encryption_secret);
            let scopes: Option<Vec<String>> = match read_texts(&row.scopes_json) {
                Ok(scopes) => Some(scopes),
                Err(_) => None,
            };
            match assemble_account(row.login, token, scopes) {
                Ok(account) => Ok(Some(account)),
                Err(error) => Err(error),
            }
        },
    }
}

/// The account that a row keeps, or `None` for a row whose nonce has not twelve
/// bytes.
pub fn checked_get_github_integration(
    row: Option<GitHubIntegrationRow>,
    encryption_secret: &str,
) -> (result: Option<Result<Option<GitHubConnectedAccount>, IntegrationError>>)
    ensures
        result is None <==> row is Some && !decryptable(row->0.encrypted_access_token@),
        result matches Some(found) ==> outcome(found) == found_account(
            row.deep_view(),
            encryption_secret@,
        ),
{
    if let Some(row) = &row {
        if checked_decrypt_access_token(&row.encrypted_access_token, encryption_secret).is_none() {
            return None;
        }
    }
    Some(get_github_integration(row, encryption_secret))
}

/// The columns of the table of connected accounts.
#[derive(Clone, Copy, Debug, PartialEq, Eq, Structural)]
pub enum IntegrationColumn {
    UserId,
    Login,
    ScopesJson,
    EncryptedAccessToken,
    CreatedAt,
    UpdatedAt,
}

/// The column by which a new row meets an old one.
pub fn integration_conflict_column() -> (result: IntegrationColumn)
    ensures
        result == IntegrationColumn::UserId,
{
    IntegrationColumn::UserId
}

/// The columns that a new row overwrites in the old one it meets: all but the
/// user's id and the time of creation.
pub fn integration_updated_columns() -> (result: Vec<IntegrationColumn>)
    ensures
        result@ == seq![
            IntegrationColumn::Login,
            IntegrationColumn::ScopesJson,
            IntegrationColumn::EncryptedAccessToken,
            IntegrationColumn::UpdatedAt,
        ],
        forall|column: IntegrationColumn|
            result@.contains(column) <==> column != IntegrationColumn::UserId && column
                != IntegrationColumn::CreatedAt,
{
    let result = vec![
        IntegrationColumn::Login,
        IntegrationColumn::ScopesJson,
        IntegrationColumn::EncryptedAccessToken,
        IntegrationColumn::UpdatedAt,
    ];
    assert(result@[0] == IntegrationColumn::Login);
    assert(result@[1] == IntegrationColumn::ScopesJson);
    assert(result@[2] == IntegrationColumn::EncryptedAccessToken);
    assert(result@[3] == IntegrationColumn::UpdatedAt);
    result
}

/// What a token says under a secret: the text that the cipher finds under the secret's
/// digest in what stands behind its first colon, with the nonce that stands before it,
/// both in base64. Where one of these is missing, that is what is told.
pub proof fn lemma_decrypted_token(encrypted: Seq<char>, encryption_secret: Seq<char>)
    ensures
        match halves(encrypted, ':') {
            None => decrypted_token(encrypted, encryption_secret) == Err::<Seq<char>, _>(
                IntegrationError::InvalidToken,
            ),
            Some((nonce, ciphertext)) => match (base64_bytes(nonce), base64_bytes(ciphertext)) {
                (None, _) => decrypted_token(encrypted, encryption_secret) == Err::<Seq<char>, _>(
                    IntegrationError::InvalidNonce,
                ),
                (Some(_), None) => decrypted_token(encrypted, encryption_secret) == Err::<
                    Seq<char>,
                    _,
                >(IntegrationError::InvalidCiphertext),
                (Some(nonce), Some(ciphertext)) => match opened(
                    sha256_digest(encode_utf8(encryption_secret)),
                    nonce,
                    ciphertext,
                ) {
                    None => decrypted_token(encrypted, encryption_secret) == Err::<Seq<char>, _>(
                        IntegrationError::DecryptionFailed,
                    ),
                    Some(bytes) => if valid_utf8(bytes) {
                        decrypted_token(encrypted, encryption_secret) == Ok::<_, IntegrationError>(
                            decode_utf8(bytes),
                        )
                    } else {
                        decrypted_token(encrypted, encryption_secret) == Err::<Seq<char>, _>(
                            IntegrationError::InvalidUtf8,
                        )
                    },
                },
            },
        },
        decryptable(encrypted) <==> match halves(encrypted, ':') {
            None => true,
            Some((nonce, ciphertext)) => match (base64_bytes(nonce), base64_bytes(ciphertext)) {
                (Some(nonce), Some(_)) => nonce.len() == 12,
                _ => true,
            },
        },
{
}

/// A token can be stored exactly if the base64 of its ciphertext fits in memory.
pub proof fn lemma_storable(access_token: Seq<char>)
    ensures
        storable(access_token) <==> encode_utf8(access_token).len() + 16 <= usize::MAX / 2,
{
}

} // verus!
