//! Assembly of GeoJSON feature collections from already-rendered feature
//! strings. Rendering of individual features stays with the caller; the
//! collection wrapper itself is verified byte for byte.

use vstd::prelude::*;
use vstd::string::StringExecFns;

verus! {

/// The features joined by commas, in order, with no trailing separator.
pub open spec fn features_joined(fs: Seq<String>) -> Seq<char>
    decreases fs.len(),
{
    if fs.len() == 0 {
        Seq::empty()
    } else if fs.len() == 1 {
        fs[0]@
    } else {
        features_joined(fs.drop_last()) + seq![','] + fs.last()@
    }
}

/// The opening text of a feature collection.
pub open spec fn collection_prefix() -> Seq<char> {
    "{\"type\": \"FeatureCollection\",\"features\": ["@
}

/// The closing text of a feature collection.
pub open spec fn collection_suffix() -> Seq<char> {
    "]}"@
}

/// Wraps rendered features into a single GeoJSON feature collection.
pub fn make_feature_collection(features: &Vec<String>) -> (r: String)
    ensures
        r@ =~= collection_prefix() + features_joined(features@) + collection_suffix(),
{
    let mut out: String = String::new();
    out.append("{\"type\": \"FeatureCollection\",\"features\": [");
    let mut i: usize = 0;
    while i < features.len()
        invariant
            i <= features@.len(),
            i == 0 ==> out@ =~= collection_prefix(),
            0 < i < features@.len() ==> out@ =~= collection_prefix() + features_joined(
                features@.take(i as int),
            ) + seq![','],
            i == features@.len() && i > 0 ==> out@ =~= collection_prefix() + features_joined(
                features@.take(i as int),
            ),
        decreases features@.len() - i,
    {
        proof {
            assert(features@.take(i + 1).drop_last() =~= features@.take(i as int));
            assert(features@.take(i + 1).last() == features@[i as int]);
        }
        out.append(features[i].as_str());
        if i + 1 < features.len() {
            out.append(",");
            proof {
                reveal_strlit(",");
            }
        }
        i = i + 1;
    }
    proof {
        assert(features@.take(features@.len() as int) =~= features@);
    }
    out.append("]}");
    out
}

} // verus!
