//! Decoder plugins, decoded from sequential pairs: the suffix and
//! mime-type keys repeat.

use vstd::prelude::*;

use crate::text::str_eq;

verus! {

/// Mathematical image of a [`Plugin`].
pub ghost struct PluginModel {
    pub name: Seq<char>,
    pub suffixes: Seq<Seq<char>>,
    pub mime_types: Seq<Seq<char>>,
}

/// One decoder plugin of the server.
#[derive(Debug, Clone, PartialEq, Eq)]
pub struct Plugin {
    /// plugin name
    pub name: String,
    /// file suffixes the plugin handles
    pub suffixes: Vec<String>,
    /// mime types the plugin handles
    pub mime_types: Vec<String>,
}

impl View for Plugin {
    type V = PluginModel;

    open spec fn view(&self) -> PluginModel {
        PluginModel {
            name: self.name@,
            suffixes: self.suffixes.deep_view(),
            mime_types: self.mime_types.deep_view(),
        }
    }
}

/// The empty plugin, before any pair is applied.
pub open spec fn spec_plugin_init() -> PluginModel {
    PluginModel { name: Seq::empty(), suffixes: Seq::empty(), mime_types: Seq::empty() }
}

/// How one key/value pair advances a partly decoded plugin: `plugin`
/// names it, each `suffix` and `mime_type` accumulates, anything else is
/// ignored. No value can be malformed.
pub open spec fn spec_plugin_step(m: PluginModel, key: Seq<char>, value: Seq<char>) -> PluginModel {
    if key == "plugin"@ {
        PluginModel { name: value, ..m }
    } else if key == "suffix"@ {
        PluginModel { suffixes: m.suffixes.push(value), ..m }
    } else if key == "mime_type"@ {
        PluginModel { mime_types: m.mime_types.push(value), ..m }
    } else {
        m
    }
}

/// Folds a record's pairs over a partly decoded plugin, left to right.
pub open spec fn spec_plugin_fold(
    m: PluginModel,
    pairs: Seq<(Seq<char>, Seq<char>)>,
) -> PluginModel
    decreases pairs.len(),
{
    if pairs.len() == 0 {
        m
    } else {
        spec_plugin_fold(spec_plugin_step(m, pairs[0].0, pairs[0].1), pairs.drop_first())
    }
}

/// The decoded form of one full plugin record.
pub open spec fn spec_plugin_from_pairs(pairs: Seq<(Seq<char>, Seq<char>)>) -> PluginModel {
    spec_plugin_fold(spec_plugin_init(), pairs)
}

impl Plugin {
    /// Decodes one plugin record from its key/value pairs, consuming the
    /// whole sequence; this decoder rejects nothing.
    pub fn from_pairs(pairs: &Vec<(String, String)>) -> (r: Plugin)
        ensures
            r@ == spec_plugin_from_pairs(pairs.deep_view()),
    {
        let ghost pdv = pairs.deep_view();
        let mut plugin = Plugin { name: String::new(), suffixes: Vec::new(), mime_types: Vec::new() };
        proof {
            assert(plugin@.suffixes =~= spec_plugin_init().suffixes);
            assert(plugin@.mime_types =~= spec_plugin_init().mime_types);
            assert(pdv.skip(0) =~= pdv);
        }
        let n = pairs.len();
        let mut i: usize = 0;
        while i < n
            invariant
                0 <= i <= n,
                n == pairs@.len(),
                pdv == pairs.deep_view(),
                spec_plugin_from_pairs(pdv) == spec_plugin_fold(plugin@, pdv.skip(i as int)),
            decreases n - i,
        {
            proof {
                assert(pdv[i as int] == (pairs@[i as int].0@, pairs@[i as int].1@));
                assert(pdv.skip(i as int)[0] == pdv[i as int]);
                assert(pdv.skip(i as int).drop_first() =~= pdv.skip(i as int + 1));
            }
            let key = &pairs[i].0;
            let value = &pairs[i].1;
            let ghost before = plugin@;
            if str_eq(key.as_str(), "plugin") {
                plugin.name = value.clone();
            } else if str_eq(key.as_str(), "suffix") {
                let ghost old_suffixes = plugin@.suffixes;
                plugin.suffixes.push(value.clone());
                proof {
                    assert(plugin@.suffixes =~= old_suffixes.push(value@));
                }
            } else if str_eq(key.as_str(), "mime_type") {
                let ghost old_mime = plugin@.mime_types;
                plugin.mime_types.push(value.clone());
                proof {
                    assert(plugin@.mime_types =~= old_mime.push(value@));
                }
            }
            proof {
                assert(spec_plugin_step(before, pdv[i as int].0, pdv[i as int].1) == plugin@);
            }
            i = i + 1;
        }
        proof {
            assert(pdv.skip(n as int) =~= Seq::<(Seq<char>, Seq<char>)>::empty());
        }
        plugin
    }
}

} // verus!
