//! What the generated adapters compute between the host's native call and
//! the idiomatic callback.
use vstd::prelude::*;
use vstd::slice::slice_subrange;
use vstd::string::{StrSliceExecFns, StringExecFns};
use vstd::utf8::{decode_utf8, valid_utf8};

verus! {

/// Platform message code of a key press.
pub const WM_KEYDOWN: u32 = 0x100;

/// Platform message code of a key release.
pub const WM_KEYUP: u32 = 0x101;

/// Platform message code of a system key press.
pub const WM_SYSKEYDOWN: u32 = 0x104;

/// Platform message code of a system key release.
pub const WM_SYSKEYUP: u32 = 0x105;

/// Whether a message code is one of the four key transitions.
pub open spec fn is_key_message(msg: u32) -> bool {
    msg == WM_KEYDOWN || msg == WM_KEYUP || msg == WM_SYSKEYDOWN || msg == WM_SYSKEYUP
}

/// A key message reports a press when bit 0 of its code is clear.
pub open spec fn key_down_of(msg: u32) -> bool {
    msg & 1 == 0
}

/// Bit 30 of the long parameter tells whether the key was down before.
pub open spec fn prev_key_down_of(l_param: isize) -> bool {
    (l_param >> 30) & 1 == 1
}

/// The key state that a key message carries: whether the key is down now and
/// whether it was before. Other messages carry none.
pub fn key_event(msg: u32, l_param: isize) -> (r: Option<(bool, bool)>)
    ensures
        r == if is_key_message(msg) {
            Some((key_down_of(msg), prev_key_down_of(l_param)))
        } else {
            None
        },
{
    if msg == WM_KEYDOWN || msg == WM_KEYUP || msg == WM_SYSKEYDOWN || msg == WM_SYSKEYUP {
        Some((msg & 1 == 0, (l_param >> 30) & 1 == 1))
    } else {
        None
    }
}

/// What a window-message adapter hands back after its callback answered:
/// the message itself to let it through, zero to swallow it.
pub fn filtered(msg: u32, keep: bool) -> (r: u32)
    ensures
        r == if keep {
            msg
        } else {
            0
        },
{
    if keep {
        msg
    } else {
        0
    }
}

/// The window-message adapter shared by the filter and no-filter slots. Key
/// messages go to `callback` with the virtual key code and the key state, and
/// pass when it answers true; any other message passes without a call.
pub fn wnd_adapter<F: Fn(usize, bool, bool) -> bool>(
    callback: &F,
    msg: u32,
    w_param: usize,
    l_param: isize,
) -> (r: u32)
    requires
        is_key_message(msg) ==> callback.requires(
            (w_param, key_down_of(msg), prev_key_down_of(l_param)),
        ),
    ensures
        !is_key_message(msg) ==> r == msg,
        is_key_message(msg) ==> exists|keep: bool|
            callback.ensures((w_param, key_down_of(msg), prev_key_down_of(l_param)), keep) && r
                == if keep {
                msg
            } else {
                0
            },
{
    match key_event(msg, l_param) {
        Some((down, prev)) => {
            let keep = callback(w_param, down, prev);
            filtered(msg, keep)
        },
        None => msg,
    }
}

/// The UI adapter's `loading` argument: any value but zero means true.
pub fn loading_flag(loading: u32) -> (r: bool)
    ensures
        r == (loading != 0),
{
    loading != 0
}

/// The length of a C string that starts at position `i` of `b` or earlier:
/// the position of the first nul from `i` on, or the end of the buffer.
pub open spec fn c_len_from(b: Seq<u8>, i: int) -> int
    decreases b.len() - i,
{
    if i < 0 || i >= b.len() {
        b.len() as int
    } else if b[i] == 0 {
        i
    } else {
        c_len_from(b, i + 1)
    }
}

/// The bytes of a C string: those before the first nul.
pub open spec fn c_bytes(b: Seq<u8>) -> Seq<u8> {
    b.subrange(0, c_len_from(b, 0))
}

/// The text that UTF-8 bytes encode, or `None` where they are not valid
/// UTF-8.
pub open spec fn utf8_decoded(b: Seq<u8>) -> Option<Seq<char>> {
    if valid_utf8(b) {
        Some(decode_utf8(b))
    } else {
        None
    }
}

/// Relies on `std::str::from_utf8`: the text that valid UTF-8 bytes encode,
/// and an error for any other bytes.
#[verifier::external_body]
fn text_from_utf8(b: &[u8]) -> (r: Option<String>)
    ensures
        r is None <==> !valid_utf8(b@),
        r matches Some(s) ==> s@ == decode_utf8(b@),
{
    std::str::from_utf8(b).ok().map(String::from)
}

/// The text of a C string held in `b`; bytes that are not valid UTF-8 give
/// the empty text.
pub open spec fn c_text_of(b: Seq<u8>) -> Seq<char> {
    match utf8_decoded(c_bytes(b)) {
        Some(t) => t,
        None => Seq::empty(),
    }
}

/// Reads a C string: `None` stands for a null pointer, else the buffer holds
/// the string's bytes up to and possibly past its nul.
pub fn c_text(buf: Option<&[u8]>) -> (r: Option<String>)
    ensures
        buf is None ==> r is None,
        buf matches Some(b) ==> r matches Some(t) && t@ == c_text_of(b@),
{
    match buf {
        None => None,
        Some(b) => {
            let n = b.len();
            let mut i: usize = 0;
            while i < n && b[i] != 0
                invariant
                    n == b@.len(),
                    i <= n,
                    c_len_from(b@, 0) == c_len_from(b@, i as int),
                decreases n - i,
            {
                i += 1;
            }
            let bytes = slice_subrange(b, 0, i);
            match text_from_utf8(bytes) {
                Some(t) => Some(t),
                None => Some(String::new()),
            }
        },
    }
}

/// The text left once the colons from position `i` on are dropped.
pub open spec fn strip_colons_from(s: Seq<char>, i: int) -> Seq<char>
    decreases s.len() - i,
{
    if 0 <= i < s.len() && s[i] == ':' {
        strip_colons_from(s, i + 1)
    } else if 0 <= i <= s.len() {
        s.subrange(i, s.len() as int)
    } else {
        Seq::empty()
    }
}

/// An account name without its leading colons.
pub open spec fn account_of(s: Seq<char>) -> Seq<char> {
    strip_colons_from(s, 0)
}

/// Drops the leading colons of an account name.
pub fn strip_colons(s: &str) -> (r: String)
    ensures
        r@ == account_of(s@),
{
    let n = s.unicode_len();
    let mut i: usize = 0;
    while i < n && s.get_char(i) == ':'
        invariant
            n == s@.len(),
            i <= n,
            account_of(s@) == strip_colons_from(s@, i as int),
        decreases n - i,
    {
        i += 1;
    }
    String::from_str(s.substring_char(i, n))
}

/// What the extras adapter hands the idiomatic init hook: the account name
/// without leading colons and the host's version text, each `None` where the
/// host passed a null pointer.
pub fn extras_user_args(account: Option<&[u8]>, version: Option<&[u8]>) -> (r: (
    Option<String>,
    Option<String>,
))
    ensures
        account is None ==> r.0 is None,
        account matches Some(a) ==> r.0 matches Some(t) && t@ == account_of(c_text_of(a@)),
        version is None ==> r.1 is None,
        version matches Some(v) ==> r.1 matches Some(t) && t@ == c_text_of(v@),
{
    let user = match c_text(account) {
        Some(t) => Some(strip_colons(t.as_str())),
        None => None,
    };
    (user, c_text(version))
}

} // verus!
