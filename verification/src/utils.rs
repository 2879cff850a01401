//! The configuration option registry: named options whose values are
//! free-form JSON documents, carried through opaquely.
use vstd::prelude::*;
use crate::{element_at_mut, seq_view};

verus! {

/// `serde_json::Value`, declared so option values can be held and
/// passed through; the library never looks inside one.
#[verifier::external_type_specification]
#[verifier::external_body]
pub struct ExValue(serde_json::Value);

/// What kind of value an option takes.
pub enum ConfigType {
    Text,
    Number,
    Boolean,
    Select(Vec<String>),
}

/// One configuration option: its unique key, what to show for it, and
/// its current value.
pub struct ConfigOption {
    pub key: String,
    pub label: String,
    pub value: serde_json::Value,
    pub kind: ConfigType,
    pub description: Option<String>,
}

/// Mathematical model of `ConfigOption`; the value itself stays
/// opaque.
pub ghost struct ConfigOptionView {
    pub key: Seq<char>,
    pub label: Seq<char>,
    pub value: serde_json::Value,
    pub kind: ConfigType,
    pub description: Option<Seq<char>>,
}

impl View for ConfigOption {
    type V = ConfigOptionView;

    open spec fn view(&self) -> ConfigOptionView {
        ConfigOptionView {
            key: self.key@,
            label: self.label@,
            value: self.value,
            kind: self.kind,
            description: match self.description {
                Some(ref d) => Some(d@),
                None => None,
            },
        }
    }
}

/// Why a registry operation was refused; the variant carries the key
/// it is about.
#[derive(Debug)]
pub enum ConfigManagerError {
    NotFound(String),
}

/// Whether some option of the list carries this key.
pub open spec fn has_option(s: Seq<ConfigOptionView>, key: Seq<char>) -> bool {
    exists|i: int| 0 <= i < s.len() && s[i].key == key
}

/// The first option carrying this key, scanning from the front.
pub open spec fn find_option(s: Seq<ConfigOptionView>, key: Seq<char>) -> Option<ConfigOptionView>
    decreases s.len(),
{
    if s.len() == 0 {
        None
    } else if s[0].key == key {
        Some(s[0])
    } else {
        find_option(s.drop_first(), key)
    }
}

/// `find_option` returns the option at the first matching position.
proof fn lemma_find_option_at(s: Seq<ConfigOptionView>, key: Seq<char>, j: int)
    requires
        0 <= j < s.len(),
        forall|q: int| 0 <= q < j ==> s[q].key != key,
        s[j].key == key,
    ensures
        find_option(s, key) == Some(s[j]),
    decreases j,
{
    if j > 0 {
        lemma_find_option_at(s.drop_first(), key, j - 1);
    }
}

/// The registry of options, in registration order, keys unique.
pub struct ConfigManager {
    options: Vec<ConfigOption>,
}

impl ConfigManager {
    /// The registered options, in registration order.
    pub closed spec fn options_seq(&self) -> Seq<ConfigOption> {
        self.options@
    }

    /// The models of the registered options.
    pub open spec fn option_views(&self) -> Seq<ConfigOptionView> {
        seq_view(self.options_seq())
    }

    /// No two registered options share a key.
    pub open spec fn wf(&self) -> bool {
        forall|i: int, j: int|
            0 <= i < j < self.option_views().len() ==> self.option_views()[i].key
                != self.option_views()[j].key
    }

    /// An empty registry.
    pub fn new() -> (r: ConfigManager)
        ensures
            r.wf(),
            r.option_views() == Seq::<ConfigOptionView>::empty(),
    {
        let r = ConfigManager { options: Vec::new() };
        proof {
            assert(r.option_views() =~= Seq::<ConfigOptionView>::empty());
        }
        r
    }

    /// Registers an option; one already registered under the same key
    /// is replaced in place.
    pub fn add_option(&mut self, option: ConfigOption)
        requires
            old(self).wf(),
        ensures
            final(self).wf(),
            has_option(old(self).option_views(), option@.key) ==> exists|k: int|
                {
                    &&& 0 <= k < old(self).option_views().len()
                    &&& old(self).option_views()[k].key == option@.key
                    &&& final(self).option_views() == old(self).option_views().update(k, option@)
                },
            !has_option(old(self).option_views(), option@.key) ==> final(self).option_views()
                == old(self).option_views().push(option@),
    {
        let n = self.options.len();
        let mut i: usize = 0;
        while i < n
            invariant
                *self == *old(self),
                old(self).wf(),
                n == self.option_views().len(),
                i <= n,
                forall|q: int| 0 <= q < i ==> self.option_views()[q].key != option@.key,
            decreases n - i,
        {
            if self.options[i].key == option.key {
                let ghost before = self.option_views();
                let slot = element_at_mut(&mut self.options, i);
                *slot = option;
                proof {
                    assert(self.option_views() =~= before.update(i as int, option@));
                    assert(0 <= i < before.len() && before[i as int].key == option@.key);
                    assert forall|a: int, b: int|
                        0 <= a < b < self.option_views().len() implies self.option_views()[a].key
                        != self.option_views()[b].key by {}
                }
                return ;
            }
            i = i + 1;
        }
        let ghost before = self.option_views();
        self.options.push(option);
        proof {
            assert(self.option_views() =~= before.push(option@));
            assert forall|a: int, b: int|
                0 <= a < b < self.option_views().len() implies self.option_views()[a].key
                != self.option_views()[b].key by {
                if b == self.option_views().len() - 1 {
                    assert(before[a].key != option@.key);
                }
            }
        }
    }

    /// The option with this key, if one is registered.
    pub fn get_option(&self, key: &str) -> (r: Option<&ConfigOption>)
        ensures
            match r {
                Some(o) => find_option(self.option_views(), key@) == Some(o@),
                None => !has_option(self.option_views(), key@),
            },
    {
        let owned = key.to_owned();
        let n = self.options.len();
        let mut i: usize = 0;
        while i < n
            invariant
                owned@ == key@,
                n == self.option_views().len(),
                i <= n,
                forall|q: int| 0 <= q < i ==> self.option_views()[q].key != key@,
            decreases n - i,
        {
            if self.options[i].key == owned {
                proof {
                    lemma_find_option_at(self.option_views(), key@, i as int);
                }
                return Some(&self.options[i]);
            }
            i = i + 1;
        }
        None
    }

    /// Stores a new value under an existing key. Refused exactly when
    /// no option carries the key; the error then carries it.
    pub fn set_option_value(&mut self, key: &str, value: serde_json::Value) -> (r: Result<
        (),
        ConfigManagerError,
    >)
        requires
            old(self).wf(),
        ensures
            final(self).wf(),
            r is Ok <==> has_option(old(self).option_views(), key@),
            r is Ok ==> exists|k: int|
                {
                    &&& 0 <= k < old(self).option_views().len()
                    &&& old(self).option_views()[k].key == key@
                    &&& final(self).option_views() == old(self).option_views().update(
                        k,
                        (ConfigOptionView { value, ..old(self).option_views()[k] }),
                    )
                },
            r is Err ==> {
                &&& final(self).option_views() == old(self).option_views()
                &&& (match r->Err_0 {
                    ConfigManagerError::NotFound(e) => e@ == key@,
                })
            },
    {
        let owned = key.to_owned();
        let n = self.options.len();
        let mut i: usize = 0;
        while i < n
            invariant
                *self == *old(self),
                old(self).wf(),
                owned@ == key@,
                n == self.option_views().len(),
                i <= n,
                forall|q: int| 0 <= q < i ==> self.option_views()[q].key != key@,
            decreases n - i,
        {
            if self.options[i].key == owned {
                let ghost before = self.option_views();
                let slot = element_at_mut(&mut self.options, i);
                slot.value = value;
                proof {
                    assert(self.option_views() =~= before.update(
                        i as int,
                        (ConfigOptionView { value, ..before[i as int] }),
                    ));
                    assert(0 <= i < before.len() && before[i as int].key == key@);
                    assert forall|a: int, b: int|
                        0 <= a < b < self.option_views().len() implies self.option_views()[a].key
                        != self.option_views()[b].key by {}
                }
                return Ok(());
            }
            i = i + 1;
        }
        Err(ConfigManagerError::NotFound(owned))
    }

    /// All registered options, in registration order.
    pub fn list_options(&self) -> (r: Vec<&ConfigOption>)
        ensures
            r@.len() == self.option_views().len(),
            forall|i: int| 0 <= i < r@.len() ==> r@[i]@ == self.option_views()[i],
    {
        let mut r: Vec<&ConfigOption> = Vec::new();
        let mut i: usize = 0;
        while i < self.options.len()
            invariant
                i <= self.option_views().len(),
                r@.len() == i,
                forall|q: int| 0 <= q < i ==> r@[q]@ == self.option_views()[q],
            decreases self.option_views().len() - i,
        {
            r.push(&self.options[i]);
            i = i + 1;
        }
        r
    }
}

} // verus!
