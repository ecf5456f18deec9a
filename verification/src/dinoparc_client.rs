use crate::dinoparc::DinoparcUsername;
use crate::text::{is_alphanumeric, str_equals};
use md5::Digest;
use vstd::prelude::*;
use vstd::utf8::encode_utf8;

verus! {

/// The MD5 digest of `data`.
pub uninterp spec fn md5_digest(data: Seq<u8>) -> Seq<u8>;

/// Computes the MD5 digest of `data` with `md5::Md5::digest`; the 16-byte
/// result depends on `data` alone.
#[verifier::external_body]
fn md5_digest_of(data: &[u8]) -> (r: [u8; 16])
    ensures
        r@ == md5_digest(data@),
{
    md5::Md5::digest(data).into()
}

/// Appends `c` to `s` with `String::push`.
#[verifier::external_body]
fn push_char(s: &mut String, c: char)
    ensures
        final(s)@ == old(s)@.push(c),
{
    s.push(c)
}

/// The number of characters of a Dinoparc machine id.
pub const DINOPARC_MACHINE_ID_LENGTH: usize = 32;

/// The characters that a machine id is made of.
pub open spec fn machine_id_charset() -> Seq<char> {
    seq!['0', '1', '2', '3', '4', '5', '6', '7', '8', '9', 'a', 'b', 'c', 'd', 'e', 'f', 'g', 'h', 'i', 'j', 'k', 'l', 'm', 'n', 'o', 'p', 'q', 'r', 's', 't', 'u', 'v', 'w', 'x', 'y', 'z', 'A', 'B', 'C', 'D', 'E', 'F', 'G', 'H', 'I', 'J', 'K', 'L', 'M', 'N', 'O', 'P', 'Q', 'R', 'S', 'T', 'U', 'V', 'W', 'X', 'Y', 'Z']
}

/// The machine id derived from the digest `hash`: its `i`-th character is the
/// character of the charset at the `i`-th byte of `hash` (cycling), modulo the
/// size of the charset.
pub open spec fn machine_id_chars(hash: Seq<u8>) -> Seq<char> {
    Seq::new(
        DINOPARC_MACHINE_ID_LENGTH as nat,
        |i: int| machine_id_charset()[hash[i % hash.len() as int] as int % 62],
    )
}

/// The machine id that the Dinoparc login flow reports for a user.
#[derive(Clone, Debug, PartialEq, Eq, Hash, PartialOrd, Ord)]
pub struct DinoparcMachineId(String);

impl View for DinoparcMachineId {
    type V = Seq<char>;

    closed spec fn view(&self) -> Seq<char> {
        self.0@
    }
}

impl DinoparcMachineId {
    pub fn as_str(&self) -> (r: &str)
        ensures
            r@ == self@,
    {
        self.0.as_str()
    }
}

/// Derives the machine id of `username` from the MD5 digest of its UTF-8 bytes.
pub fn derive_machine_id(username: &DinoparcUsername) -> (r: DinoparcMachineId)
    ensures
        r@ == machine_id_chars(md5_digest(encode_utf8(username@))),
{
    let charset: [char; 62] = ['0', '1', '2', '3', '4', '5', '6', '7', '8', '9', 'a', 'b', 'c', 'd', 'e', 'f', 'g', 'h', 'i', 'j', 'k', 'l', 'm', 'n', 'o', 'p', 'q', 'r', 's', 't', 'u', 'v', 'w', 'x', 'y', 'z', 'A', 'B', 'C', 'D', 'E', 'F', 'G', 'H', 'I', 'J', 'K', 'L', 'M', 'N', 'O', 'P', 'Q', 'R', 'S', 'T', 'U', 'V', 'W', 'X', 'Y', 'Z'];
    assert(charset@ =~= machine_id_charset());
    let hash = md5_digest_of(username.as_str().as_bytes());
    let ghost target = machine_id_chars(hash@);
    let mut mid = String::new();
    let mut i: usize = 0;
    while i < DINOPARC_MACHINE_ID_LENGTH
        invariant
            i <= DINOPARC_MACHINE_ID_LENGTH,
            charset@ == machine_id_charset(),
            hash@.len() == 16,
            target == machine_id_chars(hash@),
            mid@ == target.take(i as int),
        decreases DINOPARC_MACHINE_ID_LENGTH - i,
    {
        let idx = hash[i % 16];
        let c = charset[(idx as usize) % 62];
        push_char(&mut mid, c);
        assert(target.take(i + 1) =~= target.take(i as int).push(c));
        i = i + 1;
    }
    assert(mid@ =~= target);
    DinoparcMachineId(mid)
}

/// The HTTP status of a successful response.
pub const HTTP_OK: u16 = 200;

/// What the Dinoparc responses of a login tell of its failure.
#[derive(Copy, Clone, Debug, PartialEq, Eq, Hash, Structural)]
pub enum LoginFlowError {
    /// The login form was not answered with a success.
    UnexpectedLoginResponse,
    /// The answer to the login form sets no session cookie.
    MissingSessionCookie,
    /// The ad tracking page did not answer `OK`.
    UnexpectedAdTrackingResponse,
    /// The login confirmation was not answered with a success.
    UnexpectedLoginConfirmationResponse,
}

/// The index of the first cookie named `sid` in `cookies`, if any.
pub open spec fn first_session_cookie(cookies: Seq<(String, String)>) -> Option<int> {
    if exists|i: int| 0 <= i < cookies.len() && cookies[i].0@ == "sid"@ {
        Some(
            choose|i: int|
                0 <= i < cookies.len() && cookies[i].0@ == "sid"@ && forall|j: int|
                    0 <= j < i ==> cookies[j].0@ != "sid"@,
        )
    } else {
        None
    }
}

/// The session key that the answer to the login form holds: the value of its
/// first cookie named `sid`, when the answer is a success.
pub fn login_session_cookie(status: u16, cookies: &Vec<(String, String)>) -> (r: Result<
    String,
    LoginFlowError,
>)
    ensures
        status != HTTP_OK ==> r == Err::<String, LoginFlowError>(
            LoginFlowError::UnexpectedLoginResponse,
        ),
        status == HTTP_OK ==> match first_session_cookie(cookies@) {
            Some(i) => r matches Ok(key) && key@ == cookies@[i].1@,
            None => r == Err::<String, LoginFlowError>(LoginFlowError::MissingSessionCookie),
        },
{
    if status != HTTP_OK {
        return Err(LoginFlowError::UnexpectedLoginResponse);
    }
    let sid = "sid";
    proof {
        reveal_strlit("sid");
    }
    let mut i: usize = 0;
    while i < cookies.len()
        invariant
            i <= cookies.len(),
            status == HTTP_OK,
            sid@ == "sid"@,
            forall|j: int| 0 <= j < i ==> cookies@[j].0@ != "sid"@,
        decreases cookies.len() - i,
    {
        if str_equals(cookies[i].0.as_str(), sid) {
            proof {
                let w = choose|k: int|
                    0 <= k < cookies@.len() && cookies@[k].0@ == "sid"@ && forall|j: int|
                        0 <= j < k ==> cookies@[j].0@ != "sid"@;
                assert(cookies@[i as int].0@ == "sid"@);
                if w < i {
                } else if w > i {
                    assert(cookies@[i as int].0@ != "sid"@);
                }
            }
            return Ok(cookies[i].1.clone());
        }
        i = i + 1;
    }
    Err(LoginFlowError::MissingSessionCookie)
}

/// Checks the answer to the ad tracking request: a success whose body is `OK`.
pub fn check_ad_tracking_response(status: u16, body: &str) -> (r: Result<(), LoginFlowError>)
    ensures
        r is Ok <==> status == HTTP_OK && body@ == "OK"@,
        r is Err ==> r == Err::<(), LoginFlowError>(LoginFlowError::UnexpectedAdTrackingResponse),
{
    if status == HTTP_OK && str_equals(body, "OK") {
        Ok(())
    } else {
        Err(LoginFlowError::UnexpectedAdTrackingResponse)
    }
}

/// Checks the answer to the login confirmation: a success.
pub fn check_login_confirmation(status: u16) -> (r: Result<(), LoginFlowError>)
    ensures
        r is Ok <==> status == HTTP_OK,
        r is Err ==> r == Err::<(), LoginFlowError>(
            LoginFlowError::UnexpectedLoginConfirmationResponse,
        ),
{
    if status == HTTP_OK {
        Ok(())
    } else {
        Err(LoginFlowError::UnexpectedLoginConfirmationResponse)
    }
}

/// The value of the cookie header that carries the session `key`.
pub fn session_cookie_header(key: &str) -> (r: String)
    ensures
        r@ == "sid="@ + key@,
{
    "sid=".to_owned().concat(key)
}


/// A machine id is thirty-two letters and digits that repeat after sixteen:
/// its `i`-th character is read from the `i`-th byte of the digest, and the
/// second half repeats the first.
pub proof fn law_machine_id_shape(hash: Seq<u8>, i: int)
    requires
        hash.len() == 16,
        0 <= i < 16,
    ensures
        machine_id_chars(hash).len() == 32,
        machine_id_chars(hash)[i] == machine_id_charset()[hash[i] as int % 62],
        machine_id_chars(hash)[i + 16] == machine_id_chars(hash)[i],
        is_alphanumeric(machine_id_chars(hash)[i]),
{
    assert((i + 16) % 16 == i);
    let k = hash[i] as int % 62;
    assert(0 <= k < 62);
    assert(is_alphanumeric(machine_id_charset()[k]));
}


/// The session cookie is the first cookie named `sid`: it is named so, and no
/// cookie before it is; there is none only when no cookie is named `sid`.
pub proof fn law_first_session_cookie(cookies: Seq<(String, String)>)
    ensures
        match first_session_cookie(cookies) {
            Some(i) => 0 <= i < cookies.len() && cookies[i].0@ == "sid"@ && forall|j: int|
                0 <= j < i ==> (#[trigger] cookies[j]).0@ != "sid"@,
            None => forall|j: int| 0 <= j < cookies.len() ==> (#[trigger] cookies[j]).0@ != "sid"@,
        },
{
    if exists|i: int| 0 <= i < cookies.len() && cookies[i].0@ == "sid"@ {
        let k = choose|i: int| 0 <= i < cookies.len() && cookies[i].0@ == "sid"@;
        lemma_first_sid(cookies, k);
    }
}

proof fn lemma_first_sid(cookies: Seq<(String, String)>, k: int)
    requires
        0 <= k < cookies.len(),
        cookies[k].0@ == "sid"@,
    ensures
        exists|i: int|
            0 <= i < cookies.len() && cookies[i].0@ == "sid"@ && forall|j: int|
                0 <= j < i ==> (#[trigger] cookies[j]).0@ != "sid"@,
    decreases k,
{
    if exists|j: int| 0 <= j < k && cookies[j].0@ == "sid"@ {
        let j = choose|j: int| 0 <= j < k && cookies[j].0@ == "sid"@;
        lemma_first_sid(cookies, j);
    } else {
        assert(forall|j: int| 0 <= j < k ==> (#[trigger] cookies[j]).0@ != "sid"@);
    }
}

} // verus!
