//! Configuration parameters, held as an explicit context object: a mapping
//! from dotted keys to plain values, consulted by the dispatch, cookie and
//! server components.

use vstd::prelude::*;
use vstd::string::StringExecFns;
use crate::dict::entries_map;
use crate::dict::lemma_entries_map_dom;
use crate::dict::lemma_entries_map_last;

verus! {

/// A configuration value: a string, a boolean or an integer.
pub enum Value {
    Str(String),
    Bool(bool),
    Int(i64),
}

/// The abstraction of a configuration value.
pub enum ValueV {
    Str(Seq<char>),
    Bool(bool),
    Int(int),
}

impl View for Value {
    type V = ValueV;

    open spec fn view(&self) -> ValueV {
        match self {
            Value::Str(s) => ValueV::Str(s@),
            Value::Bool(b) => ValueV::Bool(*b),
            Value::Int(n) => ValueV::Int(*n as int),
        }
    }
}

/// The string a value holds, if it is a string.
pub open spec fn as_str_spec(v: ValueV) -> Option<Seq<char>> {
    match v {
        ValueV::Str(s) => Some(s),
        _ => None,
    }
}

/// The boolean a value holds, if it is a boolean.
pub open spec fn as_bool_spec(v: ValueV) -> Option<bool> {
    match v {
        ValueV::Bool(b) => Some(b),
        _ => None,
    }
}

/// The integer a value holds, if it is an integer.
pub open spec fn as_int_spec(v: ValueV) -> Option<int> {
    match v {
        ValueV::Int(n) => Some(n),
        _ => None,
    }
}

impl Value {
    /// An owned copy of the value.
    pub fn duplicate(&self) -> (r: Value)
        ensures
            r@ == self@,
    {
        match self {
            Value::Str(s) => Value::Str(s.clone()),
            Value::Bool(b) => Value::Bool(*b),
            Value::Int(n) => Value::Int(*n),
        }
    }

    /// The string this value holds, if it is a string.
    pub fn as_str(self) -> (r: Option<String>)
        ensures
            match r {
                Some(s) => as_str_spec(self@) == Some(s@),
                None => as_str_spec(self@) is None,
            },
    {
        match self {
            Value::Str(s) => Some(s),
            _ => None,
        }
    }

    /// The boolean this value holds, if it is a boolean.
    pub fn as_bool(self) -> (r: Option<bool>)
        ensures
            r == as_bool_spec(self@),
    {
        match self {
            Value::Bool(b) => Some(b),
            _ => None,
        }
    }

    /// The integer this value holds, if it is an integer.
    pub fn as_i64(self) -> (r: Option<i64>)
        ensures
            match r {
                Some(n) => as_int_spec(self@) == Some(n as int),
                None => as_int_spec(self@) is None,
            },
    {
        match self {
            Value::Int(n) => Some(n),
            _ => None,
        }
    }
}

/// The configuration: dotted keys mapped to values, later writes winning.
pub struct Settings {
    entries: Vec<(String, Value)>,
}

impl Settings {
    /// The entries as key and value abstractions, in insertion order.
    pub closed spec fn seq_of(&self) -> Seq<(Seq<char>, ValueV)> {
        self.entries@.map_values(|e: (String, Value)| (e.0@, e.1@))
    }
}

impl View for Settings {
    type V = Map<Seq<char>, ValueV>;

    open spec fn view(&self) -> Map<Seq<char>, ValueV> {
        entries_map(self.seq_of())
    }
}

impl Settings {
    /// An empty configuration.
    pub fn new() -> (r: Settings)
        ensures
            r@ == Map::<Seq<char>, ValueV>::empty(),
    {
        let r = Settings { entries: Vec::new() };
        proof {
            assert(r.seq_of() =~= Seq::<(Seq<char>, ValueV)>::empty());
        }
        r
    }

    /// Records a parameter; a later write under the same key wins.
    pub fn set(&mut self, key: String, value: Value)
        ensures
            final(self)@ == old(self)@.insert(key@, value@),
    {
        let ghost gk = key@;
        let ghost gv = value@;
        self.entries.push((key, value));
        proof {
            assert(self.seq_of() =~= old(self).seq_of().push((gk, gv)));
            assert(self.seq_of().drop_last() =~= old(self).seq_of());
        }
    }

    /// Looks a parameter up by its raw value.
    ///
    /// Returns the error message naming the key when the key is absent.
    pub fn get(&self, key: &str) -> (r: Result<Value, String>)
        ensures
            match r {
                Ok(v) => self@.contains_key(key@) && v@ == self@[key@],
                Err(e) => !self@.contains_key(key@) && e@ == "Key \""@ + key@ + "\" not found."@,
            },
    {
        let key_string = String::from_str(key);
        let mut i: usize = self.entries.len();
        while i > 0
            invariant
                key_string@ == key@,
                0 <= i <= self.entries@.len(),
                forall|j: int| i <= j < self.entries@.len() ==> self.seq_of()[j].0 != key@,
            decreases i,
        {
            i = i - 1;
            if self.entries[i].0.eq(&key_string) {
                proof {
                    assert(self.seq_of()[i as int].0 == key@);
                    lemma_entries_map_last(self.seq_of(), i as int);
                }
                return Ok(self.entries[i].1.duplicate());
            }
            proof {
                assert(self.seq_of()[i as int].0 != key@);
            }
        }
        proof {
            lemma_entries_map_dom(self.seq_of(), key@);
        }
        let mut e = String::from_str("Key \"");
        e.append(key);
        e.append("\" not found.");
        Err(e)
    }

    /// Looks a string parameter up.
    ///
    /// Returns the error message naming the key when the key is absent or
    /// its value is not a string.
    pub fn get_string(&self, key: &str) -> (r: Result<String, String>)
        ensures
            match r {
                Ok(s) => self@.contains_key(key@) && as_str_spec(self@[key@]) == Some(s@),
                Err(e) => {
                    ||| (!self@.contains_key(key@) && e@ == "Key \""@ + key@ + "\" not found."@)
                    ||| (self@.contains_key(key@) && as_str_spec(self@[key@]) is None && e@
                        == "Value \""@ + key@ + "\" is not a string."@)
                },
            },
    {
        match self.get(key) {
            Ok(Value::Str(s)) => Ok(s),
            Ok(_) => {
                let mut e = String::from_str("Value \"");
                e.append(key);
                e.append("\" is not a string.");
                Err(e)
            },
            Err(e) => Err(e),
        }
    }

    /// Looks a boolean parameter up.
    ///
    /// Returns the error message naming the key when the key is absent or
    /// its value is not a boolean.
    pub fn get_bool(&self, key: &str) -> (r: Result<bool, String>)
        ensures
            match r {
                Ok(b) => self@.contains_key(key@) && as_bool_spec(self@[key@]) == Some(b),
                Err(e) => {
                    ||| (!self@.contains_key(key@) && e@ == "Key \""@ + key@ + "\" not found."@)
                    ||| (self@.contains_key(key@) && as_bool_spec(self@[key@]) is None && e@
                        == "Value \""@ + key@ + "\" is not boolean."@)
                },
            },
    {
        match self.get(key) {
            Ok(Value::Bool(b)) => Ok(b),
            Ok(_) => {
                let mut e = String::from_str("Value \"");
                e.append(key);
                e.append("\" is not boolean.");
                Err(e)
            },
            Err(e) => Err(e),
        }
    }

    /// Looks an integer parameter up.
    ///
    /// Returns the error message naming the key when the key is absent or
    /// its value is not an integer.
    pub fn get_number(&self, key: &str) -> (r: Result<i64, String>)
        ensures
            match r {
                Ok(n) => self@.contains_key(key@) && as_int_spec(self@[key@]) == Some(n as int),
                Err(e) => {
                    ||| (!self@.contains_key(key@) && e@ == "Key \""@ + key@ + "\" not found."@)
                    ||| (self@.contains_key(key@) && as_int_spec(self@[key@]) is None && e@
                        == "Value \""@ + key@ + "\" is not i64/u64."@)
                },
            },
    {
        match self.get(key) {
            Ok(Value::Int(n)) => Ok(n),
            Ok(_) => {
                let mut e = String::from_str("Value \"");
                e.append(key);
                e.append("\" is not i64/u64.");
                Err(e)
            },
            Err(e) => Err(e),
        }
    }

    /// Whether a parameter exists.
    pub fn key_exists(&self, key: &str) -> (r: bool)
        ensures
            r == self@.contains_key(key@),
    {
        self.get(key).is_ok()
    }
}

/// A signed 64-bit number read as unsigned, the way an `as` cast wraps it.
pub open spec fn wrap_u64(n: int) -> int
    recommends
        -0x8000_0000_0000_0000 <= n < 0x8000_0000_0000_0000,
{
    if n >= 0 {
        n
    } else {
        n + 0x1_0000_0000_0000_0000
    }
}

/// A signed 64-bit number read as a 32-bit unsigned one, the way an `as`
/// cast wraps it.
pub open spec fn wrap_u32(n: int) -> int
    recommends
        -0x8000_0000_0000_0000 <= n < 0x8000_0000_0000_0000,
{
    if n % 0x1_0000_0000 >= 0 {
        n % 0x1_0000_0000
    } else {
        n % 0x1_0000_0000 + 0x1_0000_0000
    }
}

/// The number of seconds between configuration refreshes that
/// `environment.refresh_config_timeout` asks for, with 3 as the default
/// when the parameter is missing or not an integer; a negative parameter
/// wraps as an `as` cast does.
pub open spec fn spec_refresh_timeout(m: Map<Seq<char>, ValueV>) -> int {
    let key = "environment.refresh_config_timeout"@;
    if m.contains_key(key) && as_int_spec(m[key]) is Some {
        wrap_u64(as_int_spec(m[key]).unwrap())
    } else {
        3
    }
}

/// The `environment.refresh_config_timeout` parameter, or 3 when it is not
/// set to an integer.
pub fn refresh_config_timeout(settings: &Settings) -> (r: u64)
    ensures
        r as int == spec_refresh_timeout(settings@),
{
    match settings.get_number("environment.refresh_config_timeout") {
        Ok(num) => {
            if num >= 0 {
                num as u64
            } else {
                ((num as i128) + 0x1_0000_0000_0000_0000) as u64
            }
        },
        Err(_) => 3,
    }
}

/// Whether the deployment is production: the `environment.is_prod`
/// parameter, or false when it is not set to a boolean.
pub open spec fn spec_is_prod(m: Map<Seq<char>, ValueV>) -> bool {
    let key = "environment.is_prod"@;
    m.contains_key(key) && as_bool_spec(m[key]) == Some(true)
}

/// The `environment.is_prod` parameter, or false when it is not set to a
/// boolean.
pub fn is_prod(settings: &Settings) -> (r: bool)
    ensures
        r == spec_is_prod(settings@),
{
    match settings.get_bool("environment.is_prod") {
        Ok(b) => b,
        Err(_) => false,
    }
}

/// The `db.max_connections` parameter, which must be set to an integer; a
/// value outside `u32` wraps as an `as` cast does.
pub fn get_max_connections(settings: &Settings) -> (r: u32)
    requires
        settings@.contains_key("db.max_connections"@),
        as_int_spec(settings@["db.max_connections"@]) is Some,
    ensures
        r as int == wrap_u32(as_int_spec(settings@["db.max_connections"@]).unwrap()),
{
    match settings.get_number("db.max_connections") {
        Ok(num) => {
            let low = num % 0x1_0000_0000;
            if low >= 0 {
                low as u32
            } else {
                (low + 0x1_0000_0000) as u32
            }
        },
        Err(_) => 0,
    }
}

} // verus!
