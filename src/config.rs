use vstd::prelude::*;

verus! {

/// Semi-structured configuration data, as read from a configuration file.
#[derive(Debug)]
pub enum ConfigValue {
    Null,
    Bool(bool),
    /// A number; holds its value when it is a non-negative integer that
    /// fits in a `u64`.
    Number(Option<u64>),
    Str(String),
    Array(Vec<ConfigValue>),
    Object(Vec<ConfigEntry>),
}

/// One key of a configuration object.
#[derive(Debug)]
pub struct ConfigEntry {
    pub key: String,
    pub value: ConfigValue,
}

/// The value under the first entry of `entries` whose key is `key`.
pub open spec fn lookup_spec(entries: Seq<ConfigEntry>, key: Seq<char>) -> Option<ConfigValue>
    decreases entries.len(),
{
    if entries.len() == 0 {
        None
    } else if entries[0].key@ == key {
        Some(entries[0].value)
    } else {
        lookup_spec(entries.subrange(1, entries.len() as int), key)
    }
}

/// Element `i` of an array; nothing for any other value.
pub open spec fn index_spec(v: ConfigValue, i: int) -> Option<ConfigValue> {
    match v {
        ConfigValue::Array(a) => if 0 <= i < a.len() {
            Some(a[i])
        } else {
            None
        },
        _ => None,
    }
}

/// The value under `key` of an object; nothing for any other value.
pub open spec fn key_spec(v: ConfigValue, key: Seq<char>) -> Option<ConfigValue> {
    match v {
        ConfigValue::Object(entries) => lookup_spec(entries@, key),
        _ => None,
    }
}

/// `key_spec` applied inside an optional value.
pub open spec fn opt_key_spec(v: Option<ConfigValue>, key: Seq<char>) -> Option<ConfigValue> {
    match v {
        Some(inner) => key_spec(inner, key),
        None => None,
    }
}

/// The integer held by an optional value, when it is a non-negative integer.
pub open spec fn opt_u64_spec(v: Option<ConfigValue>) -> Option<u64> {
    match v {
        Some(ConfigValue::Number(n)) => n,
        _ => None,
    }
}

/// The boolean held by an optional value, when it is one.
pub open spec fn opt_bool_spec(v: Option<ConfigValue>) -> Option<bool> {
    match v {
        Some(ConfigValue::Bool(b)) => Some(b),
        _ => None,
    }
}

/// The text held by an optional value, when it is a string.
pub open spec fn opt_str_spec(v: Option<ConfigValue>) -> Option<Seq<char>> {
    match v {
        Some(ConfigValue::Str(s)) => Some(s@),
        _ => None,
    }
}

impl ConfigValue {
    /// Element `i`, when this is an array long enough.
    pub fn get_index(&self, i: usize) -> (r: Option<&ConfigValue>)
        ensures
            match index_spec(*self, i as int) {
                Some(v) => r is Some && *r->0 == v,
                None => r is None,
            },
    {
        match self {
            ConfigValue::Array(a) => if i < a.len() {
                Some(&a[i])
            } else {
                None
            },
            _ => None,
        }
    }

    /// The value under `key`, when this is an object that has it.
    pub fn get_key(&self, key: &String) -> (r: Option<&ConfigValue>)
        ensures
            match key_spec(*self, key@) {
                Some(v) => r is Some && *r->0 == v,
                None => r is None,
            },
    {
        match self {
            ConfigValue::Object(entries) => {
                let mut i: usize = 0;
                assert(entries@.subrange(0, entries@.len() as int) =~= entries@);
                while i < entries.len()
                    invariant
                        i <= entries@.len(),
                        key_spec(*self, key@) == lookup_spec(entries@, key@),
                        lookup_spec(entries@, key@) == lookup_spec(
                            entries@.subrange(i as int, entries@.len() as int),
                            key@,
                        ),
                    decreases entries@.len() - i,
                {
                    let ghost rest = entries@.subrange(i as int, entries@.len() as int);
                    if entries[i].key == *key {
                        assert(rest[0] == entries@[i as int]);
                        assert(lookup_spec(rest, key@) == Some(rest[0].value));
                        return Some(&entries[i].value);
                    }
                    assert(rest.subrange(1, rest.len() as int) =~= entries@.subrange(
                        i + 1,
                        entries@.len() as int,
                    ));
                    i = i + 1;
                }
                None
            },
            _ => None,
        }
    }

    pub fn as_u64(&self) -> (r: Option<u64>)
        ensures
            r == opt_u64_spec(Some(*self)),
    {
        match self {
            ConfigValue::Number(n) => *n,
            _ => None,
        }
    }

    pub fn as_bool(&self) -> (r: Option<bool>)
        ensures
            r == opt_bool_spec(Some(*self)),
    {
        match self {
            ConfigValue::Bool(b) => Some(*b),
            _ => None,
        }
    }

    pub fn as_str(&self) -> (r: Option<&String>)
        ensures
            match opt_str_spec(Some(*self)) {
                Some(s) => r is Some && r->0@ == s,
                None => r is None,
            },
    {
        match self {
            ConfigValue::Str(s) => Some(s),
            _ => None,
        }
    }

    pub fn as_array(&self) -> (r: Option<&Vec<ConfigValue>>)
        ensures
            match *self {
                ConfigValue::Array(a) => r is Some && r->0@ == a@,
                _ => r is None,
            },
    {
        match self {
            ConfigValue::Array(a) => Some(a),
            _ => None,
        }
    }
}

} // verus!
