//! Cluster configuration parameters and their typed values, and the SQL that
//! reads and alters them.

use vstd::prelude::*;
use vstd::string::*;

use crate::text::{concat, decimal, decimal_of, str_eq};

verus! {

/// `s` with every `quote` doubled, and every backslash too when
/// `backslashes` is set.
pub open spec fn doubled(s: Seq<char>, quote: char, backslashes: bool) -> Seq<char>
    decreases s.len(),
{
    if s.len() == 0 {
        Seq::empty()
    } else {
        let c = s[0];
        let head = if c == quote || (backslashes && c == '\\') {
            seq![c, c]
        } else {
            seq![c]
        };
        head + doubled(s.drop_first(), quote, backslashes)
    }
}

/// An SQL identifier: double quotes around the name, inner double quotes
/// doubled.
pub open spec fn sql_identifier(s: Seq<char>) -> Seq<char> {
    seq!['"'] + doubled(s, '"', false) + seq!['"']
}

/// An SQL string literal: single quotes around the text, inner single quotes
/// doubled; where the text holds a backslash, the escape-string form
/// ` E'...'` with backslashes doubled too.
pub open spec fn sql_literal(s: Seq<char>) -> Seq<char> {
    if s.contains('\\') {
        seq![' ', 'E', '\''] + doubled(s, '\'', true) + seq!['\'']
    } else {
        seq!['\''] + doubled(s, '\'', false) + seq!['\'']
    }
}

/// Relies on `postgres_protocol::escape::escape_identifier`, which wraps the
/// input in double quotes and doubles each double quote inside it.
#[verifier::external_body]
fn escape_identifier(s: &str) -> (r: String)
    ensures
        r@ == sql_identifier(s@),
{
    postgres_protocol::escape::escape_identifier(s)
}

/// Relies on `postgres_protocol::escape::escape_literal`, which wraps the
/// input in single quotes and doubles each single quote; when the input holds
/// a backslash it emits ` E'...'` and doubles each backslash as well.
#[verifier::external_body]
fn escape_literal(s: &str) -> (r: String)
    ensures
        r@ == sql_literal(s@),
{
    postgres_protocol::escape::escape_literal(s)
}

/// Memory units recognised in PostgreSQL parameter values.
#[derive(Debug, Clone, Copy, PartialEq, Eq, Structural)]
pub enum MemoryUnit {
    Bytes,
    Kibibytes,
    Mebibytes,
    Gibibytes,
    Tebibytes,
}

/// Time units recognised in PostgreSQL parameter values.
#[derive(Debug, Clone, Copy, PartialEq, Eq, Structural)]
pub enum TimeUnit {
    Microseconds,
    Milliseconds,
    Seconds,
    Minutes,
    Hours,
    Days,
}

impl MemoryUnit {
    /// The unit's symbol: `B`, `kB`, `MB`, `GB` or `TB`.
    pub open spec fn text(self) -> Seq<char> {
        match self {
            MemoryUnit::Bytes => seq!['B'],
            MemoryUnit::Kibibytes => seq!['k', 'B'],
            MemoryUnit::Mebibytes => seq!['M', 'B'],
            MemoryUnit::Gibibytes => seq!['G', 'B'],
            MemoryUnit::Tebibytes => seq!['T', 'B'],
        }
    }

    pub fn symbol(&self) -> (r: &'static str)
        ensures
            r@ == self.text(),
    {
        match self {
            MemoryUnit::Bytes => {
                proof { reveal_strlit("B"); }
                "B"
            },
            MemoryUnit::Kibibytes => {
                proof { reveal_strlit("kB"); }
                "kB"
            },
            MemoryUnit::Mebibytes => {
                proof { reveal_strlit("MB"); }
                "MB"
            },
            MemoryUnit::Gibibytes => {
                proof { reveal_strlit("GB"); }
                "GB"
            },
            MemoryUnit::Tebibytes => {
                proof { reveal_strlit("TB"); }
                "TB"
            },
        }
    }

    /// The unit's symbol as a `String`.
    pub fn to_string(&self) -> (r: String)
        ensures
            r@ == self.text(),
    {
        self.symbol().to_owned()
    }

    /// The unit whose symbol is `s`, if any.
    pub fn parse(s: &str) -> (r: Result<MemoryUnit, String>)
        ensures
            r matches Ok(u) ==> u.text() == s@,
            r is Err <==> forall|u: MemoryUnit| u.text() != s@,
    {
        let units = [
            MemoryUnit::Bytes,
            MemoryUnit::Kibibytes,
            MemoryUnit::Mebibytes,
            MemoryUnit::Gibibytes,
            MemoryUnit::Tebibytes,
        ];
        let mut i: usize = 0;
        while i < 5
            invariant
                units@ == seq![
                    MemoryUnit::Bytes,
                    MemoryUnit::Kibibytes,
                    MemoryUnit::Mebibytes,
                    MemoryUnit::Gibibytes,
                    MemoryUnit::Tebibytes,
                ],
                i <= 5,
                forall|k: int| 0 <= k < i ==> units@[k].text() != s@,
            decreases 5 - i,
        {
            if str_eq(units[i].symbol(), s) {
                return Ok(units[i]);
            }
            i = i + 1;
        }
        proof {
            assert forall|u: MemoryUnit| u.text() != s@ by {
                match u {
                    MemoryUnit::Bytes => assert(units@[0] == u),
                    MemoryUnit::Kibibytes => assert(units@[1] == u),
                    MemoryUnit::Mebibytes => assert(units@[2] == u),
                    MemoryUnit::Gibibytes => assert(units@[3] == u),
                    MemoryUnit::Tebibytes => assert(units@[4] == u),
                }
            }
        }
        Err(invalid("invalid memory unit: ", s))
    }
}

impl TimeUnit {
    /// The unit's symbol: `us`, `ms`, `s`, `min`, `h` or `d`.
    pub open spec fn text(self) -> Seq<char> {
        match self {
            TimeUnit::Microseconds => seq!['u', 's'],
            TimeUnit::Milliseconds => seq!['m', 's'],
            TimeUnit::Seconds => seq!['s'],
            TimeUnit::Minutes => seq!['m', 'i', 'n'],
            TimeUnit::Hours => seq!['h'],
            TimeUnit::Days => seq!['d'],
        }
    }

    pub fn symbol(&self) -> (r: &'static str)
        ensures
            r@ == self.text(),
    {
        match self {
            TimeUnit::Microseconds => {
                proof { reveal_strlit("us"); }
                "us"
            },
            TimeUnit::Milliseconds => {
                proof { reveal_strlit("ms"); }
                "ms"
            },
            TimeUnit::Seconds => {
                proof { reveal_strlit("s"); }
                "s"
            },
            TimeUnit::Minutes => {
                proof { reveal_strlit("min"); }
                "min"
            },
            TimeUnit::Hours => {
                proof { reveal_strlit("h"); }
                "h"
            },
            TimeUnit::Days => {
                proof { reveal_strlit("d"); }
                "d"
            },
        }
    }

    /// The unit's symbol as a `String`.
    pub fn to_string(&self) -> (r: String)
        ensures
            r@ == self.text(),
    {
        self.symbol().to_owned()
    }

    /// The unit whose symbol is `s`, if any.
    pub fn parse(s: &str) -> (r: Result<TimeUnit, String>)
        ensures
            r matches Ok(u) ==> u.text() == s@,
            r is Err <==> forall|u: TimeUnit| u.text() != s@,
    {
        let units = [
            TimeUnit::Microseconds,
            TimeUnit::Milliseconds,
            TimeUnit::Seconds,
            TimeUnit::Minutes,
            TimeUnit::Hours,
            TimeUnit::Days,
        ];
        let mut i: usize = 0;
        while i < 6
            invariant
                units@ == seq![
                    TimeUnit::Microseconds,
                    TimeUnit::Milliseconds,
                    TimeUnit::Seconds,
                    TimeUnit::Minutes,
                    TimeUnit::Hours,
                    TimeUnit::Days,
                ],
                i <= 6,
                forall|k: int| 0 <= k < i ==> units@[k].text() != s@,
            decreases 6 - i,
        {
            if str_eq(units[i].symbol(), s) {
                return Ok(units[i]);
            }
            i = i + 1;
        }
        proof {
            assert forall|u: TimeUnit| u.text() != s@ by {
                match u {
                    TimeUnit::Microseconds => assert(units@[0] == u),
                    TimeUnit::Milliseconds => assert(units@[1] == u),
                    TimeUnit::Seconds => assert(units@[2] == u),
                    TimeUnit::Minutes => assert(units@[3] == u),
                    TimeUnit::Hours => assert(units@[4] == u),
                    TimeUnit::Days => assert(units@[5] == u),
                }
            }
        }
        Err(invalid("invalid time unit: ", s))
    }
}

impl std::str::FromStr for MemoryUnit {
    type Err = String;

    fn from_str(s: &str) -> Result<MemoryUnit, String> {
        MemoryUnit::parse(s)
    }
}

impl std::str::FromStr for TimeUnit {
    type Err = String;

    fn from_str(s: &str) -> Result<TimeUnit, String> {
        TimeUnit::parse(s)
    }
}

/// Each memory unit's symbol parses back to that unit, and to no other.
pub proof fn lemma_memory_unit_symbols_distinct(u: MemoryUnit, w: MemoryUnit)
    ensures
        u.text() == w.text() ==> u == w,
{
    if u.text() == w.text() && u != w {
        assert(u.text()[0] != w.text()[0] || u.text().len() != w.text().len());
    }
}

/// Each time unit's symbol parses back to that unit, and to no other.
pub proof fn lemma_time_unit_symbols_distinct(u: TimeUnit, w: TimeUnit)
    ensures
        u.text() == w.text() ==> u == w,
{
    if u.text() == w.text() && u != w {
        assert(u.text()[0] != w.text()[0] || u.text().len() != w.text().len()
            || u.text()[1] != w.text()[1]);
    }
}

/// `message` followed by `s` in double quotes.
fn invalid(message: &str, s: &str) -> (r: String)
    ensures
        r@ == message@ + seq!['"'] + s@ + seq!['"'],
{
    proof {
        reveal_strlit("\"");
    }
    let mut r = message.to_owned();
    r.append("\"");
    r.append(s);
    r.append("\"");
    r
}

/// A configuration parameter, by name.
#[derive(Debug, Clone, Copy, PartialEq, Eq, Hash)]
pub struct Parameter<'a>(pub &'a str);

impl<'a> Parameter<'a> {
    /// The parameter's name escaped as an SQL identifier.
    pub fn as_sql(&self) -> (r: String)
        ensures
            r@ == sql_identifier(self.0@),
    {
        escape_identifier(self.0)
    }

    /// The parameter's name.
    pub fn to_string(&self) -> (r: String)
        ensures
            r@ == self.0@,
    {
        self.0.to_owned()
    }
}

/// A parameter value as PostgreSQL types it.
#[derive(Debug, Clone, PartialEq)]
pub enum Value {
    Boolean(bool),
    /// A string or an enumerated value.
    String(String),
    Number(String),
    Memory(String, MemoryUnit),
    Time(String, TimeUnit),
}

/// The mathematical content of a [`Value`].
pub enum ValueModel {
    Boolean(bool),
    String(Seq<char>),
    Number(Seq<char>),
    Memory(Seq<char>, MemoryUnit),
    Time(Seq<char>, TimeUnit),
}

impl View for Value {
    type V = ValueModel;

    open spec fn view(&self) -> ValueModel {
        match self {
            Value::Boolean(b) => ValueModel::Boolean(*b),
            Value::String(s) => ValueModel::String(s@),
            Value::Number(s) => ValueModel::Number(s@),
            Value::Memory(s, u) => ValueModel::Memory(s@, *u),
            Value::Time(s, u) => ValueModel::Time(s@, *u),
        }
    }
}

pub open spec fn bool_text(b: bool) -> Seq<char> {
    if b {
        seq!['t', 'r', 'u', 'e']
    } else {
        seq!['f', 'a', 'l', 's', 'e']
    }
}

/// How a value is displayed: the number or text followed by its unit.
pub open spec fn value_text(v: ValueModel) -> Seq<char> {
    match v {
        ValueModel::Boolean(b) => bool_text(b),
        ValueModel::String(s) => s,
        ValueModel::Number(s) => s,
        ValueModel::Memory(s, u) => s + u.text(),
        ValueModel::Time(s, u) => s + u.text(),
    }
}

/// The SQL form of a value: booleans and numbers verbatim, everything else as
/// an escaped string literal.
pub open spec fn value_sql(v: ValueModel) -> Seq<char> {
    match v {
        ValueModel::Boolean(b) => bool_text(b),
        ValueModel::String(s) => sql_literal(s),
        ValueModel::Number(s) => s,
        ValueModel::Memory(s, u) => sql_literal(s + u.text()),
        ValueModel::Time(s, u) => sql_literal(s + u.text()),
    }
}

fn bool_str(b: bool) -> (r: &'static str)
    ensures
        r@ == bool_text(b),
{
    if b {
        proof { reveal_strlit("true"); }
        "true"
    } else {
        proof { reveal_strlit("false"); }
        "false"
    }
}

impl Value {
    /// The value as PostgreSQL would display it, e.g. `123.4GB`.
    pub fn to_string(&self) -> (r: String)
        ensures
            r@ == value_text(self@),
    {
        match self {
            Value::Boolean(b) => bool_str(*b).to_owned(),
            Value::String(s) => s.clone(),
            Value::Number(s) => s.clone(),
            Value::Memory(s, u) => concat(s.as_str(), u.symbol()),
            Value::Time(s, u) => concat(s.as_str(), u.symbol()),
        }
    }

    /// The value escaped for use in SQL.
    pub fn as_sql(&self) -> (r: String)
        ensures
            r@ == value_sql(self@),
    {
        match self {
            Value::Boolean(b) => bool_str(*b).to_owned(),
            Value::String(s) => escape_literal(s.as_str()),
            Value::Number(s) => s.clone(),
            Value::Memory(s, u) => escape_literal(concat(s.as_str(), u.symbol()).as_str()),
            Value::Time(s, u) => escape_literal(concat(s.as_str(), u.symbol()).as_str()),
        }
    }
}

impl From<bool> for Value {
    fn from(value: bool) -> (r: Value) {
        Value::Boolean(value)
    }
}

impl vstd::std_specs::convert::FromSpecImpl<bool> for Value {
    open spec fn obeys_from_spec() -> bool {
        true
    }

    open spec fn from_spec(value: bool) -> Value {
        Value::Boolean(value)
    }
}

impl From<&str> for Value {
    fn from(value: &str) -> (r: Value)
        ensures
            r@ == ValueModel::String(value@),
    {
        Value::String(value.to_owned())
    }
}


impl vstd::std_specs::convert::FromSpecImpl<&str> for Value {
    /// The result is stated over its view instead, in the `ensures` of
    /// `from`: a `String` cannot be built in a spec function.
    open spec fn obeys_from_spec() -> bool {
        false
    }

    open spec fn from_spec(value: &str) -> Value {
        arbitrary()
    }
}

impl From<String> for Value {
    fn from(value: String) -> (r: Value) {
        Value::String(value)
    }
}

impl vstd::std_specs::convert::FromSpecImpl<String> for Value {
    open spec fn obeys_from_spec() -> bool {
        true
    }

    open spec fn from_spec(value: String) -> Value {
        Value::String(value)
    }
}

impl From<u32> for Value {
    fn from(value: u32) -> (r: Value)
        ensures
            r@ == ValueModel::Number(decimal_of(value as nat)),
    {
        Value::Number(decimal(value))
    }
}


impl vstd::std_specs::convert::FromSpecImpl<u32> for Value {
    /// The result is stated over its view instead, in the `ensures` of
    /// `from`: a `String` cannot be built in a spec function.
    open spec fn obeys_from_spec() -> bool {
        false
    }

    open spec fn from_spec(value: u32) -> Value {
        arbitrary()
    }
}

/// A change made with `ALTER SYSTEM`.
pub enum AlterSystem<'a> {
    Assign(&'a Parameter<'a>, &'a Value),
    Reset(&'a Parameter<'a>),
    ResetAll,
}

impl<'a> AlterSystem<'a> {
    /// The SQL statement that makes this change.
    pub fn as_sql(&self) -> (r: String)
        ensures
            r@ == match self {
                AlterSystem::Assign(p, v) => "ALTER SYSTEM SET "@ + sql_identifier(p.0@) + " TO "@
                    + value_sql(v@),
                AlterSystem::Reset(p) => "ALTER SYSTEM RESET "@ + sql_identifier(p.0@),
                AlterSystem::ResetAll => "ALTER SYSTEM RESET ALL"@,
            },
    {
        match self {
            AlterSystem::Assign(p, v) => {
                let mut r = "ALTER SYSTEM SET ".to_owned();
                r.append(p.as_sql().as_str());
                r.append(" TO ");
                r.append(v.as_sql().as_str());
                r
            },
            AlterSystem::Reset(p) => {
                let mut r = "ALTER SYSTEM RESET ".to_owned();
                r.append(p.as_sql().as_str());
                r
            },
            AlterSystem::ResetAll => "ALTER SYSTEM RESET ALL".to_owned(),
        }
    }
}

/// A row of `pg_catalog.pg_settings`: fairly stringly-typed and mostly
/// informational; [`Parameter`] and [`Value`] are the typed view.
#[derive(Debug, Clone)]
pub struct Setting {
    pub name: String,
    pub setting: String,
    pub unit: Option<String>,
    pub category: String,
    pub short_desc: String,
    pub extra_desc: Option<String>,
    pub context: String,
    pub vartype: String,
    pub source: String,
    pub min_val: Option<String>,
    pub max_val: Option<String>,
    pub enumvals: Option<Vec<String>>,
    pub boot_val: Option<String>,
    pub reset_val: Option<String>,
    pub sourcefile: Option<String>,
    pub sourceline: Option<i32>,
    pub pending_restart: bool,
}

/// The spellings PostgreSQL accepts for a true boolean.
pub open spec fn is_true_word(s: Seq<char>) -> bool {
    ||| s == "on"@
    ||| s == "true"@
    ||| s == "tru"@
    ||| s == "tr"@
    ||| s == "t"@
    ||| s == "yes"@
    ||| s == "ye"@
    ||| s == "y"@
    ||| s == "1"@
}

/// The spellings PostgreSQL accepts for a false boolean.
pub open spec fn is_false_word(s: Seq<char>) -> bool {
    ||| s == "off"@
    ||| s == "of"@
    ||| s == "false"@
    ||| s == "fals"@
    ||| s == "fal"@
    ||| s == "fa"@
    ||| s == "f"@
    ||| s == "no"@
    ||| s == "n"@
    ||| s == "0"@
}

pub open spec fn memory_unit_of(s: Seq<char>) -> Option<MemoryUnit> {
    if exists|u: MemoryUnit| u.text() == s {
        Some(choose|u: MemoryUnit| u.text() == s)
    } else {
        None
    }
}

pub open spec fn time_unit_of(s: Seq<char>) -> Option<TimeUnit> {
    if exists|u: TimeUnit| u.text() == s {
        Some(choose|u: TimeUnit| u.text() == s)
    } else {
        None
    }
}

/// The typed value of a setting, from its type, its text and its unit.
pub open spec fn setting_value(
    vartype: Seq<char>,
    setting: Seq<char>,
    unit: Option<Seq<char>>,
) -> Option<ValueModel> {
    if vartype == "bool"@ {
        if is_true_word(setting) {
            Some(ValueModel::Boolean(true))
        } else if is_false_word(setting) {
            Some(ValueModel::Boolean(false))
        } else {
            None
        }
    } else if vartype == "integer"@ || vartype == "real"@ {
        match unit {
            None => Some(ValueModel::Number(setting)),
            Some(u) => if u == "8kB"@ || u == "16MB"@ {
                Some(ValueModel::Number(setting))
            } else if memory_unit_of(u) is Some {
                Some(ValueModel::Memory(setting, memory_unit_of(u)->Some_0))
            } else if time_unit_of(u) is Some {
                Some(ValueModel::Time(setting, time_unit_of(u)->Some_0))
            } else {
                None
            },
        }
    } else if vartype == "string"@ || vartype == "enum"@ {
        Some(ValueModel::String(setting))
    } else {
        None
    }
}

pub open spec fn opt_view(o: Option<String>) -> Option<Seq<char>> {
    match o {
        Some(s) => Some(s@),
        None => None,
    }
}

fn true_word(s: &str) -> (r: bool)
    ensures
        r == is_true_word(s@),
{
    str_eq(s, "on") || str_eq(s, "true") || str_eq(s, "tru") || str_eq(s, "tr") || str_eq(s, "t")
        || str_eq(s, "yes") || str_eq(s, "ye") || str_eq(s, "y") || str_eq(s, "1")
}

fn false_word(s: &str) -> (r: bool)
    ensures
        r == is_false_word(s@),
{
    str_eq(s, "off") || str_eq(s, "of") || str_eq(s, "false") || str_eq(s, "fals") || str_eq(
        s,
        "fal",
    ) || str_eq(s, "fa") || str_eq(s, "f") || str_eq(s, "no") || str_eq(s, "n") || str_eq(s, "0")
}

impl Value {
    /// The typed value of a `pg_settings` row.
    pub fn from_setting(setting: &Setting) -> (r: Result<Value, String>)
        ensures
            match setting_value(setting.vartype@, setting.setting@, opt_view(setting.unit)) {
                Some(v) => r matches Ok(x) && x@ == v,
                None => r is Err,
            },
    {
        let vartype = setting.vartype.as_str();
        let text = setting.setting.as_str();
        if str_eq(vartype, "bool") {
            if true_word(text) {
                Ok(Value::Boolean(true))
            } else if false_word(text) {
                Ok(Value::Boolean(false))
            } else {
                Err(invalid("invalid boolean value: ", text))
            }
        } else if str_eq(vartype, "integer") || str_eq(vartype, "real") {
            match &setting.unit {
                None => Ok(Value::Number(setting.setting.clone())),
                Some(unit) => {
                    let unit = unit.as_str();
                    if str_eq(unit, "8kB") || str_eq(unit, "16MB") {
                        Ok(Value::Number(setting.setting.clone()))
                    } else {
                        match MemoryUnit::parse(unit) {
                            Ok(u) => {
                                proof {
                                    lemma_memory_unit_of(u, unit@);
                                }
                                Ok(Value::Memory(setting.setting.clone(), u))
                            },
                            Err(_) => match TimeUnit::parse(unit) {
                                Ok(u) => {
                                    proof {
                                        lemma_time_unit_of(u, unit@);
                                    }
                                    Ok(Value::Time(setting.setting.clone(), u))
                                },
                                Err(_) => Err(invalid("invalid numeric value: ", text)),
                            },
                        }
                    }
                },
            }
        } else if str_eq(vartype, "string") || str_eq(vartype, "enum") {
            Ok(Value::String(setting.setting.clone()))
        } else {
            Err(invalid("unrecognised value type: ", vartype))
        }
    }
}

proof fn lemma_memory_unit_of(u: MemoryUnit, s: Seq<char>)
    requires
        u.text() == s,
    ensures
        memory_unit_of(s) == Some(u),
{
    let w = choose|w: MemoryUnit| w.text() == s;
    lemma_memory_unit_symbols_distinct(u, w);
}

proof fn lemma_time_unit_of(u: TimeUnit, s: Seq<char>)
    requires
        u.text() == s,
    ensures
        time_unit_of(s) == Some(u),
{
    let w = choose|w: TimeUnit| w.text() == s;
    lemma_time_unit_symbols_distinct(u, w);
}

/// Symbols and units correspond one to one: writing a memory unit and
/// parsing it back gives the same unit.
pub proof fn lemma_memory_unit_round_trip(u: MemoryUnit)
    ensures
        memory_unit_of(u.text()) == Some(u),
{
    lemma_memory_unit_of(u, u.text());
}

/// Symbols and units correspond one to one: writing a time unit and parsing
/// it back gives the same unit.
pub proof fn lemma_time_unit_round_trip(u: TimeUnit)
    ensures
        time_unit_of(u.text()) == Some(u),
{
    lemma_time_unit_of(u, u.text());
}

} // verus!
