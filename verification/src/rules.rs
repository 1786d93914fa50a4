//! The rule table used when importing records from other tools.
//!
//! A [`Rules`] value says how the fields of an imported record become
//! an entry: which field is the date and in what format, what the
//! description, payee, status and comment are, and which accounts and
//! amounts to post. `if` blocks add [`Subrules`]: variants of the table
//! that apply to records matching one of their patterns. Reading the
//! records themselves, and files named by `include` lines, stays with
//! the caller: the paths collected here are handed back as plain
//! strings.

use crate::errors::ParseError;
use crate::errors::SilverfoxError;
use crate::errors::ValidationError;
use crate::utils::remove_comments;
use crate::utils::spec_is_whitespace;
use crate::utils::str_eq;
use crate::utils::trim;
use crate::utils::trim_start;
use vstd::prelude::*;

verus! {

/// How imported records become entries: one table of rules.
#[derive(Debug)]
pub struct Rules {
    /// Accounts to post, keyed by the index suffix of their rule name.
    pub accounts: Vec<(String, String)>,
    /// Amount templates, keyed by the index suffix of their rule name.
    pub amount_strs: Vec<(String, String)>,
    /// The entry's comment template.
    pub comment: String,
    /// The entry's description template.
    pub description: String,
    /// The date format the date field uses.
    pub date_format: String,
    /// The template that yields the date field.
    pub date_str: String,
    /// The decimal symbol amounts use.
    pub decimal_symbol: char,
    /// The record's field names, in order.
    pub fields: Vec<String>,
    /// The entry's payee template.
    pub payee: String,
    /// How many leading records to skip.
    pub skip: i32,
    /// The entry's status template.
    pub status: String,
    /// Conditional variants of this table.
    pub subrules: Vec<Subrules>,
    /// Files named by `include` or `use` lines, for the caller to read
    /// and feed back through `add_from_str`.
    pub includes: Vec<String>,
}

/// A conditional variant of a rule table: it applies to records that
/// match one of its patterns.
#[derive(Debug)]
pub struct Subrules {
    /// The patterns, matched case-insensitively against the record.
    pub patterns: Vec<String>,
    /// The table that applies where a pattern matches.
    pub rules: Rules,
}

impl Default for Rules {
    /// A fresh rule table: dashed dates, dot decimals, a cleared
    /// status, one record of headers skipped, and every template blank
    /// or its plain field.
    fn default() -> (r: Self)
        ensures
            r.accounts@.len() == 0,
            r.amount_strs@.len() == 0,
            r.comment@.len() == 0,
            r.description@ == "%description%"@,
            r.date_format@ == "%Y/%m/%d"@,
            r.date_str@ == "%date%"@,
            r.decimal_symbol == '.',
            r.fields@.len() == 0,
            r.payee@.len() == 0,
            r.skip == 1,
            r.subrules@.len() == 0,
            r.includes@.len() == 0,
            r.status@ == "~"@,
    {
        Rules {
            accounts: Vec::new(),
            amount_strs: Vec::new(),
            comment: String::new(),
            date_format: "%Y/%m/%d".to_owned(),
            date_str: "%date%".to_owned(),
            decimal_symbol: '.',
            description: "%description%".to_owned(),
            fields: Vec::new(),
            payee: String::new(),
            skip: 1,
            status: "~".to_owned(),
            subrules: Vec::new(),
            includes: Vec::new(),
        }
    }
}

impl Rules {
    /// A copy of the whole table, subrules included.
    pub fn duplicate(&self) -> (r: Rules)
        decreases *self,
    {
        Rules {
            accounts: self.accounts.clone(),
            amount_strs: self.amount_strs.clone(),
            comment: self.comment.clone(),
            description: self.description.clone(),
            date_format: self.date_format.clone(),
            date_str: self.date_str.clone(),
            decimal_symbol: self.decimal_symbol,
            fields: self.fields.clone(),
            payee: self.payee.clone(),
            skip: self.skip,
            status: self.status.clone(),
            subrules: duplicate_subrules(&self.subrules),
            includes: self.includes.clone(),
        }
    }

    /// A rule table read from text.
    pub fn from_str(rules_str: &str) -> (r: Result<Rules, SilverfoxError>) {
        let mut rules = Rules::default();
        match rules.add_from_str(rules_str) {
            Ok(()) => Ok(rules),
            Err(e) => Err(e),
        }
    }

    /// Reads rule lines into this table. A line starting with `if`
    /// opens a subrules block: its patterns stand unindented, its rules
    /// indented, and the block ends at the next unindented line.
    pub fn add_from_str(&mut self, s: &str) -> (r: Result<(), SilverfoxError>) {
        let lines = split_lines(s);
        let mut parsing_subrules: Option<Subrules> = None;
        let mut parsing_subrules_rules: bool = false;
        let n = lines.len();
        let mut i: usize = 0;
        while i < n
            invariant
                0 <= i <= n,
                n == lines@.len(),
            decreases n - i,
        {
            let line = remove_comments(lines[i].as_str());
            if trim(line).is_empty() {
                i = i + 1;
                continue ;
            }
            let mut fell_through: bool = false;
            match parsing_subrules {
                Some(mut sub) => {
                    let starts_ws = line_starts_with_whitespace(line);
                    if !parsing_subrules_rules {
                        if starts_ws {
                            parsing_subrules_rules = true;
                            match sub.rules.add_from_line(line) {
                                Ok(()) => {},
                                Err(e) => {
                                    return Err(e);
                                },
                            }
                        } else {
                            sub.patterns.push(line.to_owned());
                        }
                        parsing_subrules = Some(sub);
                    } else {
                        if starts_ws {
                            match sub.rules.add_from_line(line) {
                                Ok(()) => {},
                                Err(e) => {
                                    return Err(e);
                                },
                            }
                            parsing_subrules = Some(sub);
                        } else {
                            // An unindented line ends this subrules
                            // block and is read again as a normal line.
                            self.subrules.push(sub);
                            parsing_subrules = None;
                            parsing_subrules_rules = false;
                            fell_through = true;
                        }
                    }
                },
                None => {
                    parsing_subrules = None;
                    fell_through = true;
                },
            }
            if fell_through {
                if starts_with_if(line) {
                    let mut sub = Subrules { patterns: Vec::new(), rules: self.duplicate() };
                    let line_len = line.unicode_len();
                    match first_whitespace(line) {
                        Some(p) => {
                            let rest = line.substring_char(p + 1, line_len);
                            sub.patterns.push(rest.to_owned());
                        },
                        None => {},
                    }
                    parsing_subrules = Some(sub);
                } else {
                    match self.add_from_line(line) {
                        Ok(()) => {},
                        Err(e) => {
                            return Err(e);
                        },
                    }
                }
            }
            i = i + 1;
        }
        match parsing_subrules {
            Some(sub) => {
                self.subrules.push(sub);
            },
            None => {},
        }
        Ok(())
    }

    /// Reads one rule line: a rule name, whitespace, and a value. The
    /// value `-` resets the rule to its starting state; `include` and
    /// `use` record the named file for the caller; an unknown rule name
    /// is an error unless it extends `amount` or `account` with an
    /// index. A refused line leaves the table untouched, and no single
    /// line ever touches the subrules.
    pub fn add_from_line(&mut self, line: &str) -> (r: Result<(), SilverfoxError>)
        ensures
            r is Err ==> *final(self) == *old(self),
            final(self).subrules == old(self).subrules,
    {
        let line = trim_start(line);
        let split_index = match first_whitespace(line) {
            Some(p) => p,
            None => {
                return Err(
                    SilverfoxError::Parse(
                        ParseError::new().set_message(
                            "this rule has no value; use `-` to discard a value",
                        ).set_context(line),
                    ),
                );
            },
        };
        let line_len = line.unicode_len();
        let rule_name = line.substring_char(0, split_index);
        let rule_value = trim_start(line.substring_char(split_index + 1, line_len));
        if str_eq(trim(rule_value), "-") {
            // Resets a value.
            if str_eq(rule_name, "comment") || str_eq(rule_name, "note") {
                self.comment = String::new();
            } else if str_eq(rule_name, "date_format") {
                self.date_format = "%Y/%m/%d".to_owned();
            } else if str_eq(rule_name, "date") {
                self.date_str = "%date%".to_owned();
            } else if str_eq(rule_name, "decimal_symbol") || str_eq(rule_name, "decimal") {
                self.decimal_symbol = '.';
            } else if str_eq(rule_name, "description") {
                self.description = "%description%".to_owned();
            } else if str_eq(rule_name, "fields") {
                return Err(
                    SilverfoxError::Validation(
                        ValidationError::new().set_message(
                            "`fields` cannot be discarded; a value is required",
                        ),
                    ),
                );
            } else if str_eq(rule_name, "if") {
                return Err(
                    SilverfoxError::Parse(
                        ParseError::new().set_message("nested subrules aren't allowed"),
                    ),
                );
            } else if str_eq(rule_name, "include") || str_eq(rule_name, "use") {
                self.includes.push(rule_value.to_owned());
            } else if str_eq(rule_name, "payee") {
                self.payee = String::new();
            } else if str_eq(rule_name, "skip") {
                self.skip = 1;
            } else if str_eq(rule_name, "status") {
                self.status = "~".to_owned();
            } else {
                match strip_prefix(rule_name, "amount") {
                    Some(stripped) => {
                        assoc_remove(&mut self.amount_strs, stripped);
                    },
                    None => {
                        match strip_prefix(rule_name, "account") {
                            Some(stripped) => {
                                assoc_remove(&mut self.accounts, stripped);
                            },
                            None => {
                                return Err(
                                    SilverfoxError::Parse(
                                        ParseError::new().set_message(
                                            "this is not a rule name the importer understands",
                                        ).set_context(line),
                                    ),
                                );
                            },
                        }
                    },
                }
            }
        } else {
            // Sets a value.
            if str_eq(rule_name, "comment") || str_eq(rule_name, "note") {
                self.comment = rule_value.to_owned();
            } else if str_eq(rule_name, "date_format") {
                self.date_format = rule_value.to_owned();
            } else if str_eq(rule_name, "date") {
                self.date_str = rule_value.to_owned();
            } else if str_eq(rule_name, "decimal_symbol") || str_eq(rule_name, "decimal") {
                if rule_value.unicode_len() > 1 {
                    return Err(
                        SilverfoxError::Parse(
                            ParseError::new().set_message(
                                "decimal_symbol should be a single character",
                            ).set_context(line),
                        ),
                    );
                } else if rule_value.unicode_len() == 1 {
                    self.decimal_symbol = rule_value.get_char(0);
                }
            } else if str_eq(rule_name, "description") {
                self.description = rule_value.to_owned();
            } else if str_eq(rule_name, "fields") {
                let parts = split_on_comma(rule_value);
                let m = parts.len();
                let mut j: usize = 0;
                while j < m
                    invariant
                        0 <= j <= m,
                        m == parts@.len(),
                        self.subrules == old(self).subrules,
                    decreases m - j,
                {
                    self.fields.push(trim(parts[j].as_str()).to_owned());
                    j = j + 1;
                }
            } else if str_eq(rule_name, "if") {
                return Err(
                    SilverfoxError::Parse(
                        ParseError::new().set_message("nested subrules aren't allowed"),
                    ),
                );
            } else if str_eq(rule_name, "include") || str_eq(rule_name, "use") {
                self.includes.push(rule_value.to_owned());
            } else if str_eq(rule_name, "payee") {
                self.payee = rule_value.to_owned();
            } else if str_eq(rule_name, "skip") {
                match parse_i32(rule_value) {
                    Some(v) => {
                        self.skip = v;
                    },
                    None => {
                        return Err(
                            SilverfoxError::Parse(
                                ParseError::new().set_message(
                                    "the `skip` rule needs a plain number",
                                ).set_context(line),
                            ),
                        );
                    },
                }
            } else if str_eq(rule_name, "status") {
                self.status = rule_value.to_owned();
            } else {
                match strip_prefix(rule_name, "amount") {
                    Some(stripped) => {
                        assoc_insert(&mut self.amount_strs, stripped, rule_value.to_owned());
                    },
                    None => {
                        match strip_prefix(rule_name, "account") {
                            Some(stripped) => {
                                assoc_insert(&mut self.accounts, stripped, rule_value.to_owned());
                            },
                            None => {
                                return Err(
                                    SilverfoxError::Parse(
                                        ParseError::new().set_message(
                                            "this is not a rule name the importer understands",
                                        ).set_context(line),
                                    ),
                                );
                            },
                        }
                    },
                }
            }
        }
        Ok(())
    }

    /// Replaces each `%name%` with its variable's value, in order, and
    /// finally `%%` with a literal percent sign.
    pub fn inject_variables(s: &str, variables: &Vec<(String, String)>) -> (r: String) {
        let mut result = s.to_owned();
        let n = variables.len();
        let mut i: usize = 0;
        while i < n
            invariant
                0 <= i <= n,
                n == variables@.len(),
            decreases n - i,
        {
            let mut pattern = String::new();
            pattern.append("%");
            pattern.append(variables[i].0.as_str());
            pattern.append("%");
            result = replace_all(result.as_str(), pattern.as_str(), variables[i].1.as_str());
            i = i + 1;
        }
        replace_all(result.as_str(), "%%", "%")
    }
}

/// A copy of a list of subrules, tables included.
fn duplicate_subrules(v: &Vec<Subrules>) -> (r: Vec<Subrules>)
    decreases *v,
{
    let n = v.len();
    let mut out: Vec<Subrules> = Vec::new();
    let mut i: usize = 0;
    #[verifier::loop_isolation(false)]
    while i < n
        invariant
            0 <= i <= n,
        decreases n - i,
    {
        proof {
            broadcast use vstd::std_specs::vec::axiom_vec_index_decreases;
        }
        let sub = Subrules {
            patterns: v[i].patterns.clone(),
            rules: v[i].rules.duplicate(),
        };
        out.push(sub);
        i = i + 1;
    }
    out
}

/// Sets the value for a key, or starts a new pair where the key is new.
fn assoc_insert(map: &mut Vec<(String, String)>, key: &str, value: String) {
    let n = map.len();
    let mut i: usize = 0;
    while i < n
        invariant
            0 <= i <= n,
            n == map@.len(),
        decreases n - i,
    {
        if str_eq(map[i].0.as_str(), key) {
            let _ = map.remove(i);
            map.insert(i, (key.to_owned(), value));
            return ;
        }
        i = i + 1;
    }
    map.push((key.to_owned(), value));
}

/// Takes the pair for a key out of the map, where it has one.
fn assoc_remove(map: &mut Vec<(String, String)>, key: &str) {
    let n = map.len();
    let mut i: usize = 0;
    while i < n
        invariant
            0 <= i <= n,
            n == map@.len(),
        decreases n - i,
    {
        if str_eq(map[i].0.as_str(), key) {
            let _ = map.remove(i);
            return ;
        }
        i = i + 1;
    }
}

/// The lines of a text: split at newlines, each line's trailing
/// carriage return removed, and no final empty line.
pub fn split_lines(s: &str) -> (r: Vec<String>) {
    let n = s.unicode_len();
    let mut lines: Vec<String> = Vec::new();
    let mut start: usize = 0;
    let mut i: usize = 0;
    while i < n
        invariant
            0 <= start <= i <= n,
            n == s@.len(),
        decreases n - i,
    {
        if s.get_char(i) == '\n' {
            let mut end = i;
            if end > start {
                if s.get_char(end - 1) == '\r' {
                    end = end - 1;
                }
            }
            lines.push(s.substring_char(start, end).to_owned());
            start = i + 1;
        }
        i = i + 1;
    }
    if start < n {
        let mut end = n;
        if s.get_char(end - 1) == '\r' {
            end = end - 1;
        }
        lines.push(s.substring_char(start, end).to_owned());
    }
    lines
}

/// The position of the first whitespace character, where there is one.
fn first_whitespace(s: &str) -> (r: Option<usize>)
    ensures
        r matches Some(p) ==> p < s@.len() && spec_is_whitespace(s@[p as int]),
{
    let n = s.unicode_len();
    let mut i: usize = 0;
    while i < n
        invariant
            0 <= i <= n,
            n == s@.len(),
        decreases n - i,
    {
        if crate::utils::is_whitespace_char(s.get_char(i)) {
            return Some(i);
        }
        i = i + 1;
    }
    None
}

/// True where the line's first character is whitespace.
fn line_starts_with_whitespace(s: &str) -> (r: bool)
    ensures
        r == (s@.len() > 0 && spec_is_whitespace(s@[0])),
{
    if s.unicode_len() == 0 {
        false
    } else {
        crate::utils::is_whitespace_char(s.get_char(0))
    }
}

/// True where the line begins with the two characters `if`.
fn starts_with_if(s: &str) -> (r: bool)
    ensures
        r == (s@.len() >= 2 && s@[0] == 'i' && s@[1] == 'f'),
{
    s.unicode_len() >= 2 && s.get_char(0) == 'i' && s.get_char(1) == 'f'
}

/// The rest of `s` after the prefix, where `s` starts with it.
fn strip_prefix<'a>(s: &'a str, prefix: &str) -> (r: Option<&'a str>)
    ensures
        r matches Some(rest) ==> s@ == prefix@ + rest@,
{
    let n = s.unicode_len();
    let m = prefix.unicode_len();
    if m > n {
        return None;
    }
    let mut i: usize = 0;
    while i < m
        invariant
            0 <= i <= m <= n,
            n == s@.len(),
            m == prefix@.len(),
            forall|j: int| 0 <= j < i ==> s@[j] == prefix@[j],
        decreases m - i,
    {
        if s.get_char(i) != prefix.get_char(i) {
            return None;
        }
        i = i + 1;
    }
    let rest = s.substring_char(m, n);
    proof {
        assert(s@ =~= prefix@ + rest@);
    }
    Some(rest)
}

/// The comma-separated parts of a string, in order.
fn split_on_comma(s: &str) -> (r: Vec<String>) {
    let n = s.unicode_len();
    let mut parts: Vec<String> = Vec::new();
    let mut start: usize = 0;
    let mut i: usize = 0;
    while i < n
        invariant
            0 <= start <= i <= n,
            n == s@.len(),
        decreases n - i,
    {
        if s.get_char(i) == ',' {
            parts.push(s.substring_char(start, i).to_owned());
            start = i + 1;
        }
        i = i + 1;
    }
    parts.push(s.substring_char(start, n).to_owned());
    parts
}

/// The number a string of decimal digits names, with an optional sign;
/// `None` for anything else, and for numbers the type cannot hold.
fn parse_i32(s: &str) -> (r: Option<i32>) {
    let n = s.unicode_len();
    if n == 0 {
        return None;
    }
    let first = s.get_char(0);
    let negative = first == '-';
    let mut i: usize = if negative || first == '+' {
        1
    } else {
        0
    };
    if i >= n {
        return None;
    }
    let mut acc: i64 = 0;
    while i < n
        invariant
            0 <= i <= n,
            n == s@.len(),
            0 <= acc <= 2147483648,
        decreases n - i,
    {
        let c = s.get_char(i);
        if !('0' <= c && c <= '9') {
            return None;
        }
        let d: i64 = digit_value(c);
        let next = acc * 10 + d;
        if next > 2147483648i64 {
            return None;
        }
        acc = next;
        i = i + 1;
    }
    if negative {
        Some((-acc) as i32)
    } else {
        if acc > 2147483647i64 {
            None
        } else {
            Some(acc as i32)
        }
    }
}

/// The value of one decimal digit.
fn digit_value(c: char) -> (r: i64)
    ensures
        0 <= r <= 9,
{
    if c == '0' {
        0
    } else if c == '1' {
        1
    } else if c == '2' {
        2
    } else if c == '3' {
        3
    } else if c == '4' {
        4
    } else if c == '5' {
        5
    } else if c == '6' {
        6
    } else if c == '7' {
        7
    } else if c == '8' {
        8
    } else {
        9
    }
}

/// The string with every occurrence of a pattern replaced, scanning
/// left to right without overlap.
fn replace_all(s: &str, from: &str, to: &str) -> (r: String) {
    let n = s.unicode_len();
    let m = from.unicode_len();
    if m == 0 {
        return s.to_owned();
    }
    let mut out = String::new();
    let mut i: usize = 0;
    while i < n
        invariant
            0 <= i <= n,
            n == s@.len(),
            m == from@.len(),
            m >= 1,
        decreases n - i,
    {
        let mut matched = m <= n - i;
        if matched {
            let mut j: usize = 0;
            while j < m
                invariant
                    0 <= j <= m,
                    i + m <= n,
                    i <= n,
                    n == s@.len(),
                    m == from@.len(),
                decreases m - j,
            {
                if s.get_char(i + j) != from.get_char(j) {
                    matched = false;
                    break ;
                }
                j = j + 1;
            }
        }
        if matched {
            out.append(to);
            i = i + m;
        } else {
            let piece = s.substring_char(i, i + 1);
            out.append(piece);
            i = i + 1;
        }
    }
    out
}

} // verus!
