//! The honeypot: a link that no person sees or follows, minted for each
//! client and spliced into the pages it is served.

use crate::digest::{compute_hmac, hmac_hex_of, utf8};
use crate::text::{chars_of, copy_range, starts_with, string_of};
use vstd::prelude::*;
use vstd::string::StringExecFns;

verus! {

broadcast use vstd::string::group_string_axioms;

/// The trap link up to the address it leads to.
pub const TRAP_OPEN: &'static str = "<a href=\"";

/// The rest of the trap link: the style that keeps it off the screen.
pub const TRAP_CLOSE: &'static str =
    "\" style=\"position:absolute;left:-10000px;top:-10000px;width:1px;height:1px;overflow:hidden\" aria-hidden=\"true\" tabindex=\"-1\"></a>";

/// The tag of a client's trap: the first twelve hexadecimal digits of the
/// HMAC-SHA256 of its address under the secret.
pub open spec fn trap_tag(ip: Seq<char>, secret: Seq<char>) -> Seq<char> {
    hmac_hex_of(secret, ip).take(12)
}

/// The trap link for a client: an anchor to `prefix/tag`, off the screen and
/// out of reach of keyboard and screen reader.
pub open spec fn trap_html(prefix: Seq<char>, ip: Seq<char>, secret: Seq<char>) -> Seq<char> {
    TRAP_OPEN@ + prefix + seq!['/'] + trap_tag(ip, secret) + TRAP_CLOSE@
}

/// The trap link for a client.
pub fn generate_trap_html(trap_path_prefix: &str, client_ip: &str, secret: &str) -> (out: String)
    ensures
        out@ == trap_html(trap_path_prefix@, client_ip@, secret@),
{
    let tag = compute_hmac(secret, client_ip);
    let tag_chars = chars_of(tag.as_str());
    let short = copy_range(tag_chars.as_slice(), 0, 12);
    let short_text = string_of(short.as_slice());
    let mut out = String::new();
    out.append(TRAP_OPEN);
    out.append(trap_path_prefix);
    out.append("/");
    out.append(short_text.as_str());
    out.append(TRAP_CLOSE);
    proof {
        reveal_strlit("/");
        assert(short@ =~= trap_tag(client_ip@, secret@));
        assert(out@ =~= trap_html(trap_path_prefix@, client_ip@, secret@));
    }
    out
}

/// Whether a request path leads into the trap: it begins with the prefix.
pub fn is_trap_request(path: &str, trap_path_prefix: &str) -> (r: bool)
    ensures
        r == trap_path_prefix@.is_prefix_of(path@),
{
    let p = chars_of(path);
    let prefix = chars_of(trap_path_prefix);
    starts_with(p.as_slice(), prefix.as_slice())
}

/// `b` with the ASCII letters `A`..`Z` mapped to `a`..`z`.
pub open spec fn lower_byte(b: u8) -> u8 {
    if 65 <= b <= 90 {
        (b + 32) as u8
    } else {
        b
    }
}

/// The bytes of `</body>`.
pub open spec fn closing_tag() -> Seq<u8> {
    seq![60u8, 47u8, 98u8, 111u8, 100u8, 121u8, 62u8]
}

/// `</body>` stands in `body` at index `i`, in any mix of upper and lower
/// case.
pub open spec fn closing_tag_at(body: Seq<u8>, i: int) -> bool {
    &&& 0 <= i
    &&& i + 7 <= body.len()
    &&& forall|k: int| 0 <= k < 7 ==> lower_byte(#[trigger] body[i + k]) == closing_tag()[k]
}

/// `i` is where the first `</body>` of `body` stands.
pub open spec fn first_closing_tag(body: Seq<u8>, i: int) -> bool {
    &&& closing_tag_at(body, i)
    &&& forall|k: int| 0 <= k < i ==> !closing_tag_at(body, k)
}

/// `body` with `snippet` spliced in at index `at`.
pub open spec fn spliced(body: Seq<u8>, at: int, snippet: Seq<u8>) -> Seq<u8> {
    body.take(at) + snippet + body.skip(at)
}

fn is_closing_tag_at(body: &[u8], i: usize) -> (r: bool)
    requires
        i + 7 <= body.len(),
    ensures
        r == closing_tag_at(body@, i as int),
{
    let tag: [u8; 7] = [60, 47, 98, 111, 100, 121, 62];
    let mut k: usize = 0;
    while k < 7
        invariant
            k <= 7,
            i + 7 <= body.len(),
            tag@ == closing_tag(),
            forall|j: int| 0 <= j < k ==> lower_byte(#[trigger] body@[i + j]) == closing_tag()[j],
        decreases 7 - k,
    {
        let b = body[i + k];
        let lowered = if 65 <= b && b <= 90 {
            b + 32
        } else {
            b
        };
        if lowered != tag[k] {
            return false;
        }
        k += 1;
    }
    true
}

/// The index of the first `</body>` of `body`, in any case, if there is
/// one.
pub fn find_closing_tag(body: &[u8]) -> (r: Option<usize>)
    ensures
        match r {
            Some(i) => first_closing_tag(body@, i as int),
            None => forall|k: int| !closing_tag_at(body@, k),
        },
{
    if body.len() < 7 {
        return None;
    }
    let last = body.len() - 7;
    let mut i: usize = 0;
    loop
        invariant
            last == body.len() - 7,
            i <= last,
            forall|k: int| 0 <= k < i ==> !closing_tag_at(body@, k),
        decreases last - i,
    {
        if is_closing_tag_at(body, i) {
            return Some(i);
        }
        if i == last {
            return None;
        }
        i += 1;
    }
}

/// Splices the trap link in front of the first `</body>` of a page, in
/// whatever case the tag is written. A page without the tag gives `None`.
pub fn inject_trap(body: &[u8], trap_html: &str) -> (r: Option<Vec<u8>>)
    ensures
        match r {
            Some(out) => exists|i: int|
                first_closing_tag(body@, i) && out@ == spliced(body@, i, utf8(trap_html@)),
            None => forall|k: int| !closing_tag_at(body@, k),
        },
{
    let pos = match find_closing_tag(body) {
        Some(p) => p,
        None => {
            return None;
        },
    };
    let snippet = trap_html.as_bytes();
    let mut out: Vec<u8> = Vec::new();
    let mut i: usize = 0;
    while i < pos
        invariant
            i <= pos <= body.len(),
            out@ == body@.take(i as int),
        decreases pos - i,
    {
        out.push(body[i]);
        i += 1;
    }
    let mut j: usize = 0;
    while j < snippet.len()
        invariant
            j <= snippet.len(),
            pos <= body.len(),
            out@ == body@.take(pos as int) + snippet@.take(j as int),
        decreases snippet.len() - j,
    {
        out.push(snippet[j]);
        j += 1;
    }
    proof {
        assert(snippet@.take(snippet.len() as int) =~= snippet@);
    }
    let mut k: usize = pos;
    while k < body.len()
        invariant
            pos <= k <= body.len(),
            out@ == body@.take(pos as int) + snippet@ + body@.subrange(pos as int, k as int),
        decreases body.len() - k,
    {
        out.push(body[k]);
        k += 1;
    }
    proof {
        assert(body@.subrange(pos as int, body.len() as int) =~= body@.skip(pos as int));
    }
    Some(out)
}

} // verus!
