use vstd::prelude::*;
use crate::version::PluginVersion;

verus! {

/// Static description of a plugin, read once when it is loaded.
#[derive(Debug)]
pub struct PluginManifest {
    pub name: String,
    pub version: PluginVersion,
    pub controller_id: String,
    /// Names of the plugins this one needs.
    pub dependencies: Vec<String>,
    /// Configuration options as key and value; the first entry for a key wins.
    pub config_options: Vec<(String, String)>,
}

/// Position of the first option keyed `key`, or the number of options.
pub open spec fn first_key(options: Seq<(String, String)>, key: Seq<char>) -> int
    decreases options.len(),
{
    if options.len() == 0 {
        0
    } else if options[0].0@ == key {
        0
    } else {
        1 + first_key(options.drop_first(), key)
    }
}

proof fn lemma_first_key(options: Seq<(String, String)>, key: Seq<char>, i: int)
    requires
        0 <= i <= options.len(),
        forall|k: int| 0 <= k < i ==> (#[trigger] options[k]).0@ != key,
    ensures
        first_key(options, key) == i + first_key(options.subrange(i, options.len() as int), key),
    decreases i,
{
    if i == 0 {
        assert(options.subrange(0, options.len() as int) =~= options);
    } else {
        assert(options[0].0@ != key);
        let rest = options.drop_first();
        assert forall|k: int| 0 <= k < i - 1 implies (#[trigger] rest[k]).0@ != key by {
            assert(rest[k] == options[k + 1]);
        }
        lemma_first_key(rest, key, i - 1);
        assert(rest.subrange(i - 1, rest.len() as int) =~= options.subrange(i, options.len() as int));
    }
}

impl PluginManifest {
    /// The value of the first option keyed `key`.
    pub fn config_value(&self, key: &str) -> (r: Option<&String>)
        ensures
            ({
                let opts = self.config_options@;
                let i = first_key(opts, key@);
                &&& i == opts.len() ==> r is None
                &&& i < opts.len() ==> r == Some(&opts[i].1)
            }),
    {
        let wanted = key.to_owned();
        let mut i: usize = 0;
        while i < self.config_options.len()
            invariant
                i <= self.config_options@.len(),
                wanted@ == key@,
                forall|k: int| 0 <= k < i ==> (#[trigger] self.config_options@[k]).0@ != key@,
            decreases self.config_options@.len() - i,
        {
            if self.config_options[i].0 == wanted {
                proof {
                    let opts = self.config_options@;
                    lemma_first_key(opts, key@, i as int);
                }
                return Some(&self.config_options[i].1);
            }
            i = i + 1;
        }
        proof {
            let opts = self.config_options@;
            lemma_first_key(opts, key@, i as int);
        }
        None
    }

    /// Whether this plugin declares a dependency on the plugin `name`.
    pub fn depends_on(&self, name: &str) -> (r: bool)
        ensures
            r == exists|k: int| 0 <= k < self.dependencies@.len() && (#[trigger] self.dependencies@[k])@ == name@,
    {
        let wanted = name.to_owned();
        let mut i: usize = 0;
        while i < self.dependencies.len()
            invariant
                i <= self.dependencies@.len(),
                wanted@ == name@,
                forall|k: int| 0 <= k < i ==> (#[trigger] self.dependencies@[k])@ != name@,
            decreases self.dependencies@.len() - i,
        {
            if self.dependencies[i] == wanted {
                return true;
            }
            i = i + 1;
        }
        false
    }
}

} // verus!
