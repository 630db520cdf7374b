//! The two opaque encodings a location key is stored under: the binary blob
//! holding the ordered path list, and the structured text holding the
//! optional remote-project descriptor. Both are produced and inverted by an
//! outside serializer; the crate states their round trip and nothing else.

use crate::model::remote_opt_view;
use crate::model::RemoteProjectView;
use crate::model::SerializedRemoteProject;
use vstd::prelude::*;

verus! {

/// The binary, length-prefixed, order-preserving serialization of an
/// ordered path list. A function of the paths alone.
pub uninterp spec fn paths_blob_of(paths: Seq<Seq<char>>) -> Seq<u8>;

/// The structured text encoding of an optional remote-project descriptor.
/// The absent descriptor has its own canonical text, not an empty one. A
/// function of the descriptor alone.
pub uninterp spec fn remote_json_of(remote_project: Option<RemoteProjectView>) -> Seq<char>;

/// Relies on bincode::serialize: the encoding of a string list depends on
/// the strings alone, and serializing strings into a byte vector does not
/// fail.
#[verifier::external_body]
pub(crate) fn encode_paths(paths: &Vec<String>) -> (r: Vec<u8>)
    ensures
        r@ == paths_blob_of(paths.deep_view()),
{
    bincode::serialize(paths).expect("serializing a list of strings does not fail")
}

/// Relies on bincode::deserialize, which inverts bincode::serialize: fed
/// the encoding of a string list, it returns that list.
#[verifier::external_body]
pub(crate) fn decode_paths(blob: &Vec<u8>) -> (r: Option<Vec<String>>)
    ensures
        match r {
            Some(v) => forall|p: Seq<Seq<char>>| #[trigger]
                paths_blob_of(p) == blob@ ==> v.deep_view() == p,
            None => forall|p: Seq<Seq<char>>| #[trigger] paths_blob_of(p) != blob@,
        },
{
    bincode::deserialize::<Vec<String>>(blob.as_slice()).ok()
}

/// Relies on serde_json::to_string: the text for an optional pair of an
/// integer and a string depends on the pair alone, and writing it into a
/// string does not fail.
#[verifier::external_body]
pub(crate) fn encode_remote_project(remote_project: &Option<SerializedRemoteProject>) -> (r:
    String)
    ensures
        r@ == remote_json_of(remote_opt_view(*remote_project)),
{
    let plain: Option<(u64, &String)> = match remote_project {
        Some(p) => Some((p.id, &p.dev_server_name)),
        None => None,
    };
    serde_json::to_string(&plain).expect("serializing an optional id and name does not fail")
}

/// Relies on serde_json::from_str, which inverts serde_json::to_string:
/// fed the text written for an optional descriptor, it returns that
/// descriptor.
#[verifier::external_body]
pub(crate) fn decode_remote_project(text: &str) -> (r: Option<Option<SerializedRemoteProject>>)
    ensures
        match r {
            Some(v) => forall|d: Option<RemoteProjectView>| #[trigger]
                remote_json_of(d) == text@ ==> remote_opt_view(v) == d,
            None => forall|d: Option<RemoteProjectView>| #[trigger] remote_json_of(d) != text@,
        },
{
    match serde_json::from_str::<Option<(u64, String)>>(text) {
        Ok(Some((id, dev_server_name))) => Some(Some(SerializedRemoteProject {
            id,
            dev_server_name,
        })),
        Ok(None) => Some(None),
        Err(_) => None,
    }
}

} // verus!
