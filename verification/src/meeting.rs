//! Meeting detection. A meeting is inferred when some application is actively
//! capturing the microphone or camera: PipeWire lists such an application as a
//! node whose `media.class` is `Stream/Input/Audio` (mic) or
//! `Stream/Input/Video` (camera) and whose state is `running`. The library
//! reads the JSON that `pw-dump` prints; running `pw-dump` happens outside it.

use vstd::prelude::*;

verus! {

/// What the detection reads of one PipeWire node: `info.props["media.class"]`
/// and `info.state`, each the empty text when absent or not a string.
#[derive(Debug, Clone)]
pub struct PwNode {
    pub media_class: String,
    pub state: String,
}

/// A media class of an application capturing audio or video input.
pub open spec fn is_capture_class(class: Seq<char>) -> bool {
    class == "Stream/Input/Audio"@ || class == "Stream/Input/Video"@
}

/// The node is an input capture that is actively running (idle or suspended
/// devices do not count).
pub open spec fn is_active_capture(node: PwNode) -> bool {
    is_capture_class(node.media_class@) && node.state@ == "running"@
}

/// Exactly two media classes count as capture, `Stream/Input/Audio` (mic)
/// and `Stream/Input/Video` (camera), and only in the state `running`: a
/// node of any other class (an output stream, a sink, a source device) is
/// never a meeting, whatever its state.
pub proof fn lemma_only_running_mic_or_camera(node: PwNode)
    ensures
        is_active_capture(node) <==> ((node.media_class@ == "Stream/Input/Audio"@
            || node.media_class@ == "Stream/Input/Video"@) && node.state@ == "running"@),
        node.media_class@ != "Stream/Input/Audio"@ && node.media_class@ != "Stream/Input/Video"@
            ==> !is_active_capture(node),
        node.state@ != "running"@ ==> !is_active_capture(node),
{
}

/// Character-by-character equality of two texts.
pub fn text_eq(a: &str, b: &str) -> (r: bool)
    ensures
        r == (a@ == b@),
{
    let n = a.unicode_len();
    let m = b.unicode_len();
    if n != m {
        return false;
    }
    for i in 0..n
        invariant
            n == a@.len(),
            m == b@.len(),
            n == m,
            forall|j: int| 0 <= j < i ==> a@[j] == b@[j],
    {
        if a.get_char(i) != b.get_char(i) {
            return false;
        }
    }
    assert(a@ =~= b@);
    true
}

/// True if some node is an actively running audio or video capture stream.
pub fn capture_running(nodes: &Vec<PwNode>) -> (r: bool)
    ensures
        r == exists|i: int| 0 <= i < nodes@.len() && #[trigger] is_active_capture(nodes@[i]),
        r == exists|i: int|
            0 <= i < nodes@.len() && ((#[trigger] nodes@[i]).media_class@ == "Stream/Input/Audio"@
                || nodes@[i].media_class@ == "Stream/Input/Video"@) && nodes@[i].state@
                == "running"@,
{
    let n = nodes.len();
    for i in 0..n
        invariant
            n == nodes@.len(),
            forall|j: int| 0 <= j < i ==> !#[trigger] is_active_capture(nodes@[j]),
    {
        let node = &nodes[i];
        let class = node.media_class.as_str();
        let is_capture = text_eq(class, "Stream/Input/Audio") || text_eq(class, "Stream/Input/Video");
        if is_capture {
            // `state` may be absent in some dumps; only "running" is active.
            if text_eq(node.state.as_str(), "running") {
                assert(is_active_capture(nodes@[i as int]));
                return true;
            }
        }
    }
    assert forall|j: int| 0 <= j < nodes@.len() implies !(((#[trigger] nodes@[j]).media_class@
        == "Stream/Input/Audio"@ || nodes@[j].media_class@ == "Stream/Input/Video"@)
        && nodes@[j].state@ == "running"@) by {
        assert(!is_active_capture(nodes@[j]));
    }
    false
}

/// The nodes of a `pw-dump` text as serde_json reads them: `None` when the
/// text is not JSON or its top level is not an array; otherwise, for each
/// element of the array in order, the texts `info.props["media.class"]` and
/// `info.state`, each the empty text when absent or not a string.
pub uninterp spec fn pw_dump_nodes(json: Seq<char>) -> Option<Seq<(Seq<char>, Seq<char>)>>;

/// Calls `serde_json::from_str::<serde_json::Value>` on the text, then
/// `Value::as_array`, and for each element reads `["info"]["props"]["media.class"]`
/// and `["info"]["state"]` with `Value::as_str` (the empty text when `None`).
/// Claimed: the result is `None` exactly when `pw_dump_nodes` is, and
/// otherwise holds the same pairs, in the same order.
#[verifier::external_body]
fn read_pw_nodes(json: &str) -> (r: Option<Vec<PwNode>>)
    ensures
        r is None <==> pw_dump_nodes(json@) is None,
        r matches Option::Some(v) ==> pw_dump_nodes(json@) matches Option::Some(ns) && v@.len()
            == ns.len() && forall|i: int|
            0 <= i < ns.len() ==> (#[trigger] v@[i]).media_class@ == ns[i].0 && v@[i].state@
                == ns[i].1,
{
    let parsed: serde_json::Value = serde_json::from_str(json).ok()?;
    let arr = parsed.as_array()?;
    Some(
        arr.iter().map(
            |obj| PwNode {
                media_class: obj["info"]["props"]["media.class"].as_str().unwrap_or("").to_string(),
                state: obj["info"]["state"].as_str().unwrap_or("").to_string(),
            },
        ).collect(),
    )
}

/// True if the `pw-dump` output shows an active audio/video capture stream.
/// Text that is not JSON, or JSON that is not an array, is not a meeting.
pub fn parse_pw_dump(json: &str) -> (r: bool)
    ensures
        r == (pw_dump_nodes(json@) matches Option::Some(ns) && exists|i: int|
            0 <= i < ns.len() && is_capture_class(#[trigger] ns[i].0) && ns[i].1 == "running"@),
        r == (pw_dump_nodes(json@) matches Option::Some(ns) && exists|i: int|
            0 <= i < ns.len() && ((#[trigger] ns[i].0 == "Stream/Input/Audio"@ || ns[i].0
                == "Stream/Input/Video"@) && ns[i].1 == "running"@)),
{
    match read_pw_nodes(json) {
        None => false,
        Some(nodes) => {
            let r = capture_running(&nodes);
            proof {
                let ns = pw_dump_nodes(json@).unwrap();
                if r {
                    let i = choose|i: int| 0 <= i < nodes@.len() && #[trigger] is_active_capture(nodes@[i]);
                    assert(is_capture_class(ns[i].0) && ns[i].1 == "running"@);
                } else {
                    assert forall|i: int| 0 <= i < ns.len() && is_capture_class(#[trigger] ns[i].0)
                        implies ns[i].1 != "running"@ by {
                        assert(!is_active_capture(nodes@[i]));
                    }
                }
            }
            r
        },
    }
}

/// Effective meeting state. A manual override, when set, always wins;
/// otherwise the live capture detection `capture_active` is consulted, and
/// only when auto-detection is on.
pub fn meeting_state<F: FnOnce() -> bool>(
    manual_override: Option<bool>,
    auto_detect: bool,
    capture_active: F,
) -> (r: bool)
    requires
        manual_override is None && auto_detect ==> call_requires(capture_active, ()),
    ensures
        manual_override matches Option::Some(forced) ==> r == forced,
        manual_override is None && !auto_detect ==> !r,
        manual_override is None && auto_detect ==> call_ensures(capture_active, (), r),
{
    if let Some(forced) = manual_override {
        return forced;
    }
    if auto_detect {
        capture_active()
    } else {
        false
    }
}

} // verus!
