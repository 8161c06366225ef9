//! The addresses that connections are opened to.

use crate::error::{Error, Link};
use crate::state::view_option;
use vstd::prelude::*;
use vstd::string::StrSliceExecFns;
use vstd::utf8::is_ascii_chars;

verus! {

/// How many characters of an address may stand before its path.
pub const LIMIT: usize = 200;

/// How many may stand there if all of them are ASCII.
pub const ASCII_LIMIT: usize = 1900;

/// Whether the character can stand between a scheme and a host: slashes, and what is overlooked
/// wherever it stands.
pub open spec fn is_gap(c: char) -> bool {
    c == '/' || c == '\\' || c == '\t' || c == '\n' || c == '\r'
}

/// Whether the character cannot belong to a host, and ends it.
pub open spec fn is_end(c: char) -> bool {
    c == '/' || c == '?' || c == '#'
}

/// Whether a host, if there is one, begins before `end`: there is something behind the colon of
/// the scheme that is no gap.
pub open spec fn host_begins(address: Seq<char>, end: int) -> bool {
    exists|i: int, j: int|
        0 <= i < j < end && #[trigger] address[i] == ':' && !is_gap(#[trigger] address[j])
}

/// Whether a host, if there is one, is over at `end`.
pub open spec fn host_is_over(address: Seq<char>, end: int) -> bool {
    ||| end == address.len()
    ||| 0 <= end < address.len() && is_end(address[end]) && host_begins(address, end)
}

/// Whether the address can be read: it is short enough, or what stands up to the end of its host.
pub open spec fn readable(address: Seq<char>) -> bool {
    ||| address.len() <= LIMIT
    ||| exists|end: int|
        0 <= end && #[trigger] host_is_over(address, end) && (end <= LIMIT || (end <= ASCII_LIMIT
            && is_ascii_chars(address.take(end))))
}

/// Tests whether the address can be read.
pub fn is_readable(address: &str) -> (yes: bool)
    ensures
        yes == readable(address@),
{
    let length: usize = address.unicode_len();
    let mut colon = false;
    let mut begun = false;
    let mut ascii = true;
    let mut end: usize = 0;
    while end < length && end <= ASCII_LIMIT
        invariant_except_break
            forall|i: int| 0 <= i < end ==> !host_is_over(address@, i),
        invariant
            end <= length == address@.len(),
            end <= ASCII_LIMIT + 1,
            colon <==> exists|i: int| 0 <= i < end && #[trigger] address@[i] == ':',
            begun <==> host_begins(address@, end as int),
            ascii <==> is_ascii_chars(address@.take(end as int)),
        ensures
            forall|i: int| 0 <= i < end ==> !host_is_over(address@, i),
            host_is_over(address@, end as int) || end > ASCII_LIMIT,
        decreases length - end,
    {
        let c = address.get_char(end);
        if begun && (c == '/' || c == '?' || c == '#') {
            break;
        }
        proof {
            let before = address@.take(end as int);
            let after = address@.take(end as int + 1);
            assert(after =~= before.push(c));
            assert(after.last() == c);
            if is_ascii_chars(after) {
                assert forall|i: int| 0 <= i < before.len() implies '\0' <= #[trigger] before[i]
                    <= '\u{7f}' by {
                    assert(after[i] == before[i]);
                }
            }
        }
        begun = begun || (colon && !(c == '/' || c == '\\' || c == '\t' || c == '\n' || c
            == '\r'));
        colon = colon || c == ':';
        ascii = ascii && c <= '\u{7f}';
        end = end + 1;
    }
    let yes = end <= LIMIT || (end <= ASCII_LIMIT && ascii);
    proof {
        if readable(address@) && address@.len() > LIMIT {
            let other = choose|other: int|
                0 <= other && #[trigger] host_is_over(address@, other) && (other <= LIMIT || (other
                    <= ASCII_LIMIT && is_ascii_chars(address@.take(other))));
            assert(end <= other);
            if other > LIMIT {
                assert forall|i: int| 0 <= i < end implies '\0' <= #[trigger] address@.take(
                    end as int,
                )[i] <= '\u{7f}' by {
                    assert(address@.take(other)[i] == address@.take(end as int)[i]);
                }
            }
        }
    }
    yes
}

/// What is wrong with an address, if anything is.
pub uninterp spec fn address_fault(address: Seq<char>) -> Option<Seq<char>>;

/// Calls `websocket::client::ClientBuilder::new`, which reads the address as a URL and opens
/// nothing. Its contract names the message of the error that comes of this, if one does. Which
/// addresses are faulty is left to the rules for URLs. On the way each label of the host is written
/// in Punycode, where a sum can overflow if the label has more than 3855 characters. Up to then a
/// character may have been replaced by 18, and nine ASCII ones that stand for one such character
/// too. The host of a `readable` address stays below that.
#[verifier::external_body]
fn read_address(address: &str) -> (fault: Option<String>)
    requires
        readable(address@),
    ensures
        view_option(fault) == address_fault(address@),
{
    match websocket::client::ClientBuilder::new(address) {
        Ok(_) => None,
        Err(error) => Some(error.to_string()),
    }
}

/// The verdict on an address with that fault, or with none.
pub fn address_verdict(fault: Option<String>) -> (verdict: Result<(), Error>)
    ensures
        verdict == match fault {
            Some(text) => Err::<(), Error>(Error::Foreign { link: Link::WsUri, text }),
            None => Ok(()),
        },
{
    match fault {
        Some(text) => Err(Error::Foreign { link: Link::WsUri, text }),
        None => Ok(()),
    }
}

/// Tests whether a connection can be opened to the address, and tells what is wrong if not.
pub fn judge_address(address: &str) -> (verdict: Result<(), Error>)
    requires
        readable(address@),
    ensures
        verdict is Ok <==> address_fault(address@) is None,
        verdict matches Err(error) ==> {
            &&& error matches Error::Foreign { link, text }
            &&& link == Link::WsUri
            &&& address_fault(address@) == Some(text@)
        },
{
    address_verdict(read_address(address))
}

/// An address is read if it has 200 characters at most, and so is an address of a socket whose host
/// has 194 at most, or 1894 in ASCII, however long its path is.
pub proof fn law_long_paths_are_read(host: Seq<char>, path: Seq<char>)
    requires
        host.len() > 0,
        !is_gap(host[0]),
        host.len() <= 194 || (host.len() <= 1894 && is_ascii_chars(host)),
    ensures
        readable("wss://"@ + host + "/"@ + path),
        path.len() <= 200 ==> readable(path),
{
    reveal_strlit("wss://");
    reveal_strlit("/");
    let address = "wss://"@ + host + "/"@ + path;
    let end = 6 + host.len() as int;
    assert(address[3] == ':');
    assert(address[6] == host[0]);
    assert(address[end] == '/');
    assert(host_begins(address, end));
    assert(host_is_over(address, end));
    if host.len() > 194 {
        let front = address.take(end);
        assert forall|i: int| 0 <= i < front.len() implies '\0' <= #[trigger] front[i]
            <= '\u{7f}' by {
            if i >= 6 {
                assert(front[i] == host[i - 6]);
            }
        }
    }
}

/// An address without a fault is a good one, and one with a fault is told with all the words for
/// it, as an error in the address.
pub proof fn law_address_verdict(text: String, verdict: Result<(), Error>)
    ensures
        call_ensures(address_verdict, (None,), verdict) ==> verdict == Ok::<(), Error>(()),
        call_ensures(address_verdict, (Some(text),), verdict) ==> verdict == Err::<(), Error>(
            Error::Foreign { link: Link::WsUri, text },
        ),
{
}

/// An address is good just if it has no fault, and told with the fault if it has one; it is tested
/// just as it is given.
pub proof fn law_judge_address(address: &str, verdict: Result<(), Error>, yes: bool)
    ensures
        call_ensures(judge_address, (address,), verdict) ==> (verdict is Ok <==> address_fault(
            address@,
        ) is None),
        call_ensures(judge_address, (address,), verdict) ==> (verdict matches Err(error) ==> (error
            matches Error::Foreign { link, text } && link == Link::WsUri && address_fault(address@)
            == Some(text@))),
        call_ensures(is_readable, (address,), yes) ==> (yes <==> readable(address@)),
{
}

} // verus!
