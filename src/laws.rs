//! What holds of every merge of two documents.
use vstd::prelude::*;

use crate::document::{
    config_dir_of, default_view, endpoint_of, key_path_of, merge_config, merge_daemon, peers_of,
    same_document, Config, DaemonView,
};

verus! {

proof fn merge_daemon_self(d: DaemonView)
    ensures
        merge_daemon(d, d) == d,
{
}

/// Merging a document onto itself says the same as the document alone.
pub proof fn merge_self_same(c: Config)
    ensures
        same_document(merge_config(c@, c@), c@),
{
    let v = c@;
    if let Some(d) = v.daemon {
        merge_daemon_self(d);
    }
    assert(peers_of(v.peers).union_prefer_right(peers_of(v.peers)) =~= peers_of(v.peers));
}

/// The default document merged onto itself says the same as the default
/// document.
pub proof fn merge_default_identity()
    ensures
        same_document(merge_config(default_view(), default_view()), default_view()),
{
    merge_daemon_self(default_view().daemon->Some_0);
    assert(peers_of(default_view().peers).union_prefer_right(peers_of(default_view().peers))
        =~= peers_of(default_view().peers));
}

/// Whatever the overriding document sets, the merge takes from it: each
/// daemon field it gives, and each peer it names, whatever `base` holds.
pub proof fn merge_override(base: Config, over: Config)
    ensures
        endpoint_of(over@) is Some ==> endpoint_of(merge_config(base@, over@)) == endpoint_of(
            over@,
        ),
        key_path_of(over@) is Some ==> key_path_of(merge_config(base@, over@)) == key_path_of(
            over@,
        ),
        config_dir_of(over@) is Some ==> config_dir_of(merge_config(base@, over@))
            == config_dir_of(over@),
        forall|k: Seq<char>|
            #[trigger] peers_of(over@.peers).contains_key(k) ==> {
                &&& peers_of(merge_config(base@, over@).peers).contains_key(k)
                &&& peers_of(merge_config(base@, over@).peers)[k] == peers_of(over@.peers)[k]
            },
{
}

/// Whatever the overriding document leaves absent, the merge takes from
/// `base`: daemon settings as a whole, each daemon field, and each peer that
/// `over` does not name.
pub proof fn merge_inherit(base: Config, over: Config)
    ensures
        over@.daemon is None ==> merge_config(base@, over@).daemon == base@.daemon,
        endpoint_of(over@) is None ==> endpoint_of(merge_config(base@, over@)) == endpoint_of(
            base@,
        ),
        key_path_of(over@) is None ==> key_path_of(merge_config(base@, over@)) == key_path_of(
            base@,
        ),
        config_dir_of(over@) is None ==> config_dir_of(merge_config(base@, over@))
            == config_dir_of(base@),
        forall|k: Seq<char>|
            !peers_of(over@.peers).contains_key(k) ==> {
                &&& #[trigger] peers_of(merge_config(base@, over@).peers).contains_key(k)
                    == peers_of(base@.peers).contains_key(k)
                &&& peers_of(base@.peers).contains_key(k) ==> peers_of(
                    merge_config(base@, over@).peers,
                )[k] == peers_of(base@.peers)[k]
            },
{
}

/// The peers of a merge are those of both documents; where both name a
/// peer, the second document's entry stands.
pub proof fn merge_peers_union(a: Config, b: Config)
    ensures
        forall|k: Seq<char>|
            #[trigger] peers_of(merge_config(a@, b@).peers).contains_key(k) == (peers_of(
                a@.peers,
            ).contains_key(k) || peers_of(b@.peers).contains_key(k)),
        forall|k: Seq<char>|
            #[trigger] peers_of(b@.peers).contains_key(k) ==> peers_of(
                merge_config(a@, b@).peers,
            )[k] == peers_of(b@.peers)[k],
{
}

} // verus!
