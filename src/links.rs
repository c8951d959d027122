//! Addresses of the viewer page and labels of viewer windows.

use vstd::prelude::*;
use vstd::string::{StrSliceExecFns, StringExecFns};

verus! {

/// The percent-encoding of a text for use in a URL query.
pub uninterp spec fn url_encoded(s: Seq<char>) -> Seq<char>;

/// Relies on `urlencoding::encode`: the text percent-encoded; the result
/// depends on the text alone.
#[verifier::external_body]
fn encode_component(s: &str) -> (r: String)
    ensures
        r@ == url_encoded(s@),
{
    urlencoding::encode(s).into_owned()
}

/// The address of the viewer page for a peer.
pub open spec fn viewer_url_of(id: Seq<char>, name: Seq<char>, ip: Seq<char>) -> Seq<char> {
    "/viewer.html?peer_id="@ + url_encoded(id) + "&peer_name="@ + url_encoded(name) + "&peer_ip="@
        + url_encoded(ip)
}

/// The address of the viewer page for a peer, with each value
/// percent-encoded.
pub fn viewer_url(peer_id: &str, peer_name: &str, peer_ip: &str) -> (r: String)
    ensures
        r@ == viewer_url_of(peer_id@, peer_name@, peer_ip@),
{
    let mut url = String::from_str("/viewer.html?peer_id=");
    url.append(encode_component(peer_id).as_str());
    url.append("&peer_name=");
    url.append(encode_component(peer_name).as_str());
    url.append("&peer_ip=");
    url.append(encode_component(peer_ip).as_str());
    url
}

/// `c` with address separators replaced by dashes.
pub open spec fn label_char(c: char) -> char {
    if c == '.' || c == ':' {
        '-'
    } else {
        c
    }
}

/// The label of the viewer window for a peer.
pub open spec fn window_label_of(id: Seq<char>) -> Seq<char> {
    "viewer-"@ + id.map_values(|c: char| label_char(c))
}

/// The label of the viewer window for a peer: `viewer-` and the peer id
/// with dots and colons turned into dashes.
pub fn viewer_window_label(peer_id: &str) -> (r: String)
    ensures
        r@ == window_label_of(peer_id@),
{
    let mut label = String::from_str("viewer-");
    let ghost prefix = label@;
    let n = peer_id.unicode_len();
    let mut i: usize = 0;
    while i < n
        invariant
            n == peer_id@.len(),
            i <= n,
            prefix == "viewer-"@,
            label@ == prefix + peer_id@.subrange(0, i as int).map_values(|c: char| label_char(c)),
        decreases n - i,
    {
        let c = peer_id.get_char(i);
        let piece = if c == '.' || c == ':' {
            "-"
        } else {
            peer_id.substring_char(i, i + 1)
        };
        proof {
            if c == '.' || c == ':' {
                reveal_strlit("-");
            }
            assert(piece@ =~= seq![label_char(c)]);
        }
        label.append(piece);
        assert(peer_id@.subrange(0, i + 1).map_values(|c: char| label_char(c)) =~= peer_id@.subrange(0, i as int).map_values(|c: char| label_char(c)).push(label_char(c)));
        i = i + 1;
    }
    assert(peer_id@.subrange(0, n as int) =~= peer_id@);
    label
}

} // verus!
