//! Wikidot `%%token%%` values for one page, shared by live templates and
//! ListPages. Form records are held as plain values: each field's name,
//! whether it is a select field with its options, and the stored values.

use crate::names::{name_of, split_category};
use crate::render::list_pages::{BlockView, block_in, block_search_start, blocks_of, lemma_blocks_ordered, blocks_in_chars};
use crate::text::{chars_eq, chars_find_from, chars_match_at, chars_sub, chars_trim_end_at, find_from, is_ascii_alnum, is_ascii_lower, lemma_find_from_bounds, lemma_trim_end_bounds, push_all, push_decimal_i64, push_sub, signed_decimal, str_chars, string_from_chars, trim_end};
use vstd::prelude::*;

verus! {

/// Opens and closes a token.
pub open spec fn percent_pair() -> Seq<char> {
    seq!['%', '%']
}

pub fn percent_pair_chars() -> (out: Vec<char>)
    ensures
        out@ == percent_pair(),
{
    vec!['%', '%']
}

/// The token that shows a form field as readers see it.
pub open spec fn form_data_name() -> Seq<char> {
    seq!['f', 'o', 'r', 'm', '_', 'd', 'a', 't', 'a']
}

pub fn form_data_name_chars() -> (out: Vec<char>)
    ensures
        out@ == form_data_name(),
{
    vec!['f', 'o', 'r', 'm', '_', 'd', 'a', 't', 'a']
}

/// The token that shows a form field as stored.
pub open spec fn form_raw_name() -> Seq<char> {
    seq!['f', 'o', 'r', 'm', '_', 'r', 'a', 'w']
}

pub fn form_raw_name_chars() -> (out: Vec<char>)
    ensures
        out@ == form_raw_name(),
{
    vec!['f', 'o', 'r', 'm', '_', 'r', 'a', 'w']
}

/// The page name without its category.
pub open spec fn name_token() -> Seq<char> {
    seq!['n', 'a', 'm', 'e']
}

pub fn name_token_chars() -> (out: Vec<char>)
    ensures
        out@ == name_token(),
{
    vec!['n', 'a', 'm', 'e']
}

/// The full page name.
pub open spec fn fullname_token() -> Seq<char> {
    seq!['f', 'u', 'l', 'l', 'n', 'a', 'm', 'e']
}

pub fn fullname_token_chars() -> (out: Vec<char>)
    ensures
        out@ == fullname_token(),
{
    vec!['f', 'u', 'l', 'l', 'n', 'a', 'm', 'e']
}

/// The page title.
pub open spec fn title_token() -> Seq<char> {
    seq!['t', 'i', 't', 'l', 'e']
}

pub fn title_token_chars() -> (out: Vec<char>)
    ensures
        out@ == title_token(),
{
    vec!['t', 'i', 't', 'l', 'e']
}

/// A link labelled with the page title.
pub open spec fn linked_title_token() -> Seq<char> {
    seq!['l', 'i', 'n', 'k', 'e', 'd', '_', 't', 'i', 't', 'l', 'e']
}

pub fn linked_title_token_chars() -> (out: Vec<char>)
    ensures
        out@ == linked_title_token(),
{
    vec!['l', 'i', 'n', 'k', 'e', 'd', '_', 't', 'i', 't', 'l', 'e']
}

/// Another name for `linked_title`.
pub open spec fn title_linked_token() -> Seq<char> {
    seq!['t', 'i', 't', 'l', 'e', '_', 'l', 'i', 'n', 'k', 'e', 'd']
}

pub fn title_linked_token_chars() -> (out: Vec<char>)
    ensures
        out@ == title_linked_token(),
{
    vec!['t', 'i', 't', 'l', 'e', '_', 'l', 'i', 'n', 'k', 'e', 'd']
}

/// The path of the page.
pub open spec fn link_token() -> Seq<char> {
    seq!['l', 'i', 'n', 'k']
}

pub fn link_token_chars() -> (out: Vec<char>)
    ensures
        out@ == link_token(),
{
    vec!['l', 'i', 'n', 'k']
}

/// When the page was created.
pub open spec fn created_at_token() -> Seq<char> {
    seq!['c', 'r', 'e', 'a', 't', 'e', 'd', '_', 'a', 't']
}

pub fn created_at_token_chars() -> (out: Vec<char>)
    ensures
        out@ == created_at_token(),
{
    vec!['c', 'r', 'e', 'a', 't', 'e', 'd', '_', 'a', 't']
}

/// When the page was last edited.
pub open spec fn updated_at_token() -> Seq<char> {
    seq!['u', 'p', 'd', 'a', 't', 'e', 'd', '_', 'a', 't']
}

pub fn updated_at_token_chars() -> (out: Vec<char>)
    ensures
        out@ == updated_at_token(),
{
    vec!['u', 'p', 'd', 'a', 't', 'e', 'd', '_', 'a', 't']
}

/// Opens a wiki link.
pub open spec fn link_open() -> Seq<char> {
    seq!['[', '[', '[']
}

pub fn link_open_chars() -> (out: Vec<char>)
    ensures
        out@ == link_open(),
{
    vec!['[', '[', '[']
}

/// Closes a wiki link with an empty label.
pub open spec fn link_close_empty() -> Seq<char> {
    seq!['|', ']', ']', ']']
}

pub fn link_close_empty_chars() -> (out: Vec<char>)
    ensures
        out@ == link_close_empty(),
{
    vec!['|', ']', ']', ']']
}

/// Opens a date element.
pub open spec fn date_open() -> Seq<char> {
    seq!['[', '[', 'd', 'a', 't', 'e', ' ']
}

pub fn date_open_chars() -> (out: Vec<char>)
    ensures
        out@ == date_open(),
{
    vec!['[', '[', 'd', 'a', 't', 'e', ' ']
}

/// Closes a date element.
pub open spec fn date_close() -> Seq<char> {
    seq![']', ']']
}

pub fn date_close_chars() -> (out: Vec<char>)
    ensures
        out@ == date_close(),
{
    vec![']', ']']
}

/// How `true` is shown.
pub open spec fn true_word() -> Seq<char> {
    seq!['t', 'r', 'u', 'e']
}

pub fn true_word_chars() -> (out: Vec<char>)
    ensures
        out@ == true_word(),
{
    vec!['t', 'r', 'u', 'e']
}

/// How `false` is shown.
pub open spec fn false_word() -> Seq<char> {
    seq!['f', 'a', 'l', 's', 'e']
}

pub fn false_word_chars() -> (out: Vec<char>)
    ensures
        out@ == false_word(),
{
    vec!['f', 'a', 'l', 's', 'e']
}

/// The line that ends the part of a live template shown on pages.
pub open spec fn separator_line() -> Seq<char> {
    seq!['=', '=', '=', '=']
}

pub fn separator_line_chars() -> (out: Vec<char>)
    ensures
        out@ == separator_line(),
{
    vec!['=', '=', '=', '=']
}


// ---------------------------------------------------------------- forms

/// A value of a form record, as far as tokens show it. Numbers keep the text
/// they are displayed with.
#[derive(Debug)]
pub enum FormValue {
    Null,
    Bool(bool),
    Number(String),
    Text(String),
    /// A list, a mapping or a tagged value: shown as nothing.
    Other,
}

/// One option of a select field: the stored code and the label readers see.
#[derive(Debug)]
pub struct FormOption {
    pub code: FormValue,
    pub label: FormValue,
}

/// One field of a form schema.
#[derive(Debug)]
pub struct FormField {
    pub name: String,
    pub is_select: bool,
    pub options: Vec<FormOption>,
}

/// A form-category page's schema and stored values.
#[derive(Debug)]
pub struct FormRecord {
    pub fields: Vec<FormField>,
    pub values: Vec<(String, FormValue)>,
}

/// Token sources for one page. Unknown or unavailable tokens stay literal.
pub struct PageTokens<'a> {
    pub fullname: &'a str,
    pub title: &'a str,
    pub created_at: Option<i64>,
    pub updated_at: Option<i64>,
    pub form: Option<&'a FormRecord>,
}

/// What a page's tokens are made of.
pub ghost struct TokensView {
    pub fullname: Seq<char>,
    pub title: Seq<char>,
    pub created_at: Option<i64>,
    pub updated_at: Option<i64>,
    pub form: Option<FormRecord>,
}

impl<'a> View for PageTokens<'a> {
    type V = TokensView;

    open spec fn view(&self) -> TokensView {
        TokensView {
            fullname: self.fullname@,
            title: self.title@,
            created_at: self.created_at,
            updated_at: self.updated_at,
            form: match self.form {
                Some(f) => Some(*f),
                None => None,
            },
        }
    }
}

/// How a value is written into the page.
pub open spec fn scalar_text_spec(v: FormValue) -> Seq<char> {
    match v {
        FormValue::Text(t) => t@,
        FormValue::Number(n) => n@,
        FormValue::Bool(b) => if b { true_word() } else { false_word() },
        _ => seq![],
    }
}

/// Whether two values are equal; lists, mappings and tagged values never
/// match an option.
pub open spec fn value_eq(a: FormValue, b: FormValue) -> bool {
    match (a, b) {
        (FormValue::Null, FormValue::Null) => true,
        (FormValue::Bool(x), FormValue::Bool(y)) => x == y,
        (FormValue::Number(x), FormValue::Number(y)) => x@ == y@,
        (FormValue::Text(x), FormValue::Text(y)) => x@ == y@,
        _ => false,
    }
}

/// The value stored under `field`, the first from `i` on.
pub open spec fn stored_from(values: Seq<(String, FormValue)>, field: Seq<char>, i: int) -> Option<FormValue>
    decreases values.len() - i,
{
    if i < 0 || i >= values.len() {
        None
    } else if values[i].0@ == field {
        Some(values[i].1)
    } else {
        stored_from(values, field, i + 1)
    }
}

/// The first select field named `field`, from `i` on.
pub open spec fn select_field_from(fields: Seq<FormField>, field: Seq<char>, i: int) -> Option<FormField>
    decreases fields.len() - i,
{
    if i < 0 || i >= fields.len() {
        None
    } else if fields[i].name@ == field && fields[i].is_select {
        Some(fields[i])
    } else {
        select_field_from(fields, field, i + 1)
    }
}

/// The label of the first option whose code is `value`, from `i` on.
pub open spec fn option_label_from(options: Seq<FormOption>, value: FormValue, i: int) -> Option<FormValue>
    decreases options.len() - i,
{
    if i < 0 || i >= options.len() {
        None
    } else if value_eq(options[i].code, value) {
        Some(options[i].label)
    } else {
        option_label_from(options, value, i + 1)
    }
}

pub open spec fn stored_spec(form: Option<FormRecord>, field: Seq<char>) -> Option<FormValue> {
    match form {
        Some(f) => stored_from(f.values@, field, 0),
        None => None,
    }
}

/// `%%form_raw{field}%%`: the stored value.
pub open spec fn form_raw_spec(form: Option<FormRecord>, field: Seq<char>) -> Seq<char> {
    match stored_spec(form, field) {
        Some(v) => scalar_text_spec(v),
        None => seq![],
    }
}

/// `%%form_data{field}%%`: select fields show their option label; other
/// fields show the stored value.
pub open spec fn form_data_spec(form: Option<FormRecord>, field: Seq<char>) -> Seq<char> {
    match form {
        None => seq![],
        Some(f) => match stored_from(f.values@, field, 0) {
            None => seq![],
            Some(v) => match select_field_from(f.fields@, field, 0) {
                Some(select) => match option_label_from(select.options@, v, 0) {
                    Some(label) => scalar_text_spec(label),
                    None => scalar_text_spec(v),
                },
                None => scalar_text_spec(v),
            },
        },
    }
}

fn push_scalar_text(out: &mut Vec<char>, v: &FormValue)
    ensures
        final(out)@ == old(out)@ + scalar_text_spec(*v),
{
    match v {
        FormValue::Text(t) => push_all(out, &str_chars(t.as_str())),
        FormValue::Number(n) => push_all(out, &str_chars(n.as_str())),
        FormValue::Bool(b) => if *b {
            push_all(out, &true_word_chars())
        } else {
            push_all(out, &false_word_chars())
        },
        _ => {
            assert(out@ =~= out@ + scalar_text_spec(*v));
        },
    }
}

/// How a value is written into the page.
pub fn scalar_text(value: &FormValue) -> (out: String)
    ensures
        out@ == scalar_text_spec(*value),
{
    let mut out: Vec<char> = Vec::new();
    push_scalar_text(&mut out, value);
    string_from_chars(&out)
}

fn string_eq(a: &String, b: &String) -> (out: bool)
    ensures
        out == (a@ == b@),
{
    chars_eq(&str_chars(a.as_str()), &str_chars(b.as_str()))
}

fn values_equal(a: &FormValue, b: &FormValue) -> (out: bool)
    ensures
        out == value_eq(*a, *b),
{
    match (a, b) {
        (FormValue::Null, FormValue::Null) => true,
        (FormValue::Bool(x), FormValue::Bool(y)) => *x == *y,
        (FormValue::Number(x), FormValue::Number(y)) => string_eq(x, y),
        (FormValue::Text(x), FormValue::Text(y)) => string_eq(x, y),
        _ => false,
    }
}

fn stored_in<'r>(values: &'r Vec<(String, FormValue)>, field: &[char]) -> (out: Option<&'r FormValue>)
    ensures
        match out {
            Some(v) => stored_from(values@, field@, 0) == Some(*v),
            None => stored_from(values@, field@, 0) is None,
        },
{
    let mut i: usize = 0;
    while i < values.len()
        invariant
            i <= values.len(),
            stored_from(values@, field@, i as int) == stored_from(values@, field@, 0),
        decreases values.len() - i,
    {
        if chars_eq(&str_chars(values[i].0.as_str()), field) {
            return Some(&values[i].1);
        }
        i = i + 1;
    }
    None
}

fn select_field_in<'r>(fields: &'r Vec<FormField>, field: &[char]) -> (out: Option<&'r FormField>)
    ensures
        match out {
            Some(f) => select_field_from(fields@, field@, 0) == Some(*f),
            None => select_field_from(fields@, field@, 0) is None,
        },
{
    let mut i: usize = 0;
    while i < fields.len()
        invariant
            i <= fields.len(),
            select_field_from(fields@, field@, i as int) == select_field_from(fields@, field@, 0),
        decreases fields.len() - i,
    {
        if fields[i].is_select && chars_eq(&str_chars(fields[i].name.as_str()), field) {
            return Some(&fields[i]);
        }
        i = i + 1;
    }
    None
}

fn option_label_in<'r>(options: &'r Vec<FormOption>, value: &FormValue) -> (out: Option<&'r FormValue>)
    ensures
        match out {
            Some(l) => option_label_from(options@, *value, 0) == Some(*l),
            None => option_label_from(options@, *value, 0) is None,
        },
{
    let mut i: usize = 0;
    while i < options.len()
        invariant
            i <= options.len(),
            option_label_from(options@, *value, i as int) == option_label_from(options@, *value, 0),
        decreases options.len() - i,
    {
        if values_equal(&options[i].code, value) {
            return Some(&options[i].label);
        }
        i = i + 1;
    }
    None
}

// ---------------------------------------------------------------- tokens

/// `token` is `function{field}`: the field.
pub open spec fn field_argument_spec(token: Seq<char>, function: Seq<char>) -> Option<Seq<char>> {
    if token.len() >= function.len() + 2 && token.subrange(0, function.len() as int) == function
        && token[function.len() as int] == '{' && token.last() == '}' {
        Some(token.subrange(function.len() as int + 1, token.len() - 1))
    } else {
        None
    }
}

/// The field named by a token of the form `function{field}`.
pub fn field_argument(token: &str, function: &str) -> (out: Option<String>)
    ensures
        match out {
            Some(f) => field_argument_spec(token@, function@) == Some(f@),
            None => field_argument_spec(token@, function@) is None,
        },
{
    match field_argument_chars(&str_chars(token), &str_chars(function)) {
        Some(f) => Some(string_from_chars(&f)),
        None => None,
    }
}

fn field_argument_chars(token: &[char], function: &[char]) -> (out: Option<Vec<char>>)
    ensures
        match out {
            Some(f) => field_argument_spec(token@, function@) == Some(f@),
            None => field_argument_spec(token@, function@) is None,
        },
{
    if token.len() >= 2 && token.len() - 2 >= function.len() && chars_match_at(token, 0, function)
        && token[function.len()] == '{' && token[token.len() - 1] == '}' {
        assert forall|k: int| 0 <= k < function@.len() implies
            #[trigger] token@.subrange(0, function@.len() as int)[k] == function@[k] by {
            assert(token@[0 + k] == function@[k]);
        }
        assert(token@.subrange(0, function@.len() as int) =~= function@);
        Some(chars_sub(token, function.len() + 1, token.len() - 1))
    } else {
        proof {
            if token@.len() >= function@.len() + 2 && token@.subrange(0, function@.len() as int) == function@ {
                assert forall|k: int| 0 <= k < function@.len() implies #[trigger] token@[0 + k] == function@[k] by {
                    assert(token@.subrange(0, function@.len() as int)[k] == token@[k]);
                }
            }
        }
        None
    }
}

/// Where a token's name ends: its first `{`, or its end.
pub open spec fn brace_at(token: Seq<char>) -> Option<int> {
    find_from(token, seq!['{'], 0)
}

pub open spec fn name_char(c: char) -> bool {
    is_ascii_lower(c) || c == '_'
}

pub open spec fn field_char(c: char) -> bool {
    is_ascii_alnum(c) || c == '_' || c == '-'
}

/// A recognized token shape: a lowercase name, optionally followed by
/// `{field}` with a nonempty field of letters, digits, `_` and `-`.
pub open spec fn is_token_name_spec(token: Seq<char>) -> bool {
    match brace_at(token) {
        None => token.len() > 0 && forall|i: int| 0 <= i < token.len() ==> name_char(#[trigger] token[i]),
        Some(k) => {
            &&& k > 0
            &&& forall|i: int| 0 <= i < k ==> name_char(#[trigger] token[i])
            &&& token.len() >= k + 3
            &&& token.last() == '}'
            &&& forall|i: int| k < i < token.len() - 1 ==> field_char(#[trigger] token[i])
        },
    }
}

fn all_name_chars(t: &[char], from: usize, to: usize) -> (out: bool)
    requires
        from <= to <= t.len(),
    ensures
        out == forall|i: int| from <= i < to ==> name_char(#[trigger] t@[i]),
{
    let mut i = from;
    while i < to
        invariant
            from <= i <= to <= t.len(),
            forall|j: int| from <= j < i ==> name_char(#[trigger] t@[j]),
        decreases to - i,
    {
        let c = t[i];
        if !(('a' <= c && c <= 'z') || c == '_') {
            return false;
        }
        i = i + 1;
    }
    true
}

fn all_field_chars(t: &[char], from: usize, to: usize) -> (out: bool)
    requires
        from <= to <= t.len(),
    ensures
        out == forall|i: int| from <= i < to ==> field_char(#[trigger] t@[i]),
{
    let mut i = from;
    while i < to
        invariant
            from <= i <= to <= t.len(),
            forall|j: int| from <= j < i ==> field_char(#[trigger] t@[j]),
        decreases to - i,
    {
        let c = t[i];
        if !(('0' <= c && c <= '9') || ('a' <= c && c <= 'z') || ('A' <= c && c <= 'Z') || c == '_' || c == '-') {
            return false;
        }
        i = i + 1;
    }
    true
}

fn is_token_name_chars(token: &[char]) -> (out: bool)
    ensures
        out == is_token_name_spec(token@),
{
    let brace = vec!['{'];
    assert(brace@ =~= seq!['{']);
    proof { lemma_find_from_bounds(token@, seq!['{'], 0); }
    match chars_find_from(token, &brace, 0) {
        None => token.len() > 0 && all_name_chars(token, 0, token.len()),
        Some(k) => {
            k > 0 && all_name_chars(token, 0, k) && token.len() >= 3 && k <= token.len() - 3
                && token[token.len() - 1] == '}' && all_field_chars(token, k + 1, token.len() - 1)
        },
    }
}

/// Whether `token` has the shape of a token: a lowercase name with an
/// optional `{field}`.
pub fn is_token_name(token: &str) -> (out: bool)
    ensures
        out == is_token_name_spec(token@),
{
    is_token_name_chars(&str_chars(token))
}

/// The value of `token` for this page, if it is a known, available token.
pub open spec fn value_spec(t: TokensView, token: Seq<char>) -> Option<Seq<char>> {
    if field_argument_spec(token, form_data_name()) is Some {
        Some(form_data_spec(t.form, field_argument_spec(token, form_data_name()).unwrap()))
    } else if field_argument_spec(token, form_raw_name()) is Some {
        Some(form_raw_spec(t.form, field_argument_spec(token, form_raw_name()).unwrap()))
    } else if token == name_token() {
        Some(name_of(t.fullname))
    } else if token == fullname_token() {
        Some(t.fullname)
    } else if token == title_token() {
        Some(t.title)
    } else if token == linked_title_token() || token == title_linked_token() {
        Some(link_open() + t.fullname + link_close_empty())
    } else if token == link_token() {
        Some(seq!['/'] + t.fullname)
    } else if token == created_at_token() {
        match t.created_at {
            Some(n) => Some(date_open() + signed_decimal(n as int) + date_close()),
            None => None,
        }
    } else if token == updated_at_token() {
        match t.updated_at {
            Some(n) => Some(date_open() + signed_decimal(n as int) + date_close()),
            None => None,
        }
    } else {
        None
    }
}

fn push_date(out: &mut Vec<char>, n: i64)
    ensures
        final(out)@ == old(out)@ + date_open() + signed_decimal(n as int) + date_close(),
{
    push_all(out, &date_open_chars());
    push_decimal_i64(out, n);
    push_all(out, &date_close_chars());
}

impl<'a> PageTokens<'a> {
    fn form_raw_chars(&self, field: &[char]) -> (out: Vec<char>)
        ensures
            out@ == form_raw_spec(self@.form, field@),
    {
        let mut out: Vec<char> = Vec::new();
        match self.form {
            Some(f) => match stored_in(&f.values, field) {
                Some(v) => push_scalar_text(&mut out, v),
                None => {},
            },
            None => {},
        }
        out
    }

    fn form_data_chars(&self, field: &[char]) -> (out: Vec<char>)
        ensures
            out@ == form_data_spec(self@.form, field@),
    {
        let mut out: Vec<char> = Vec::new();
        match self.form {
            None => {},
            Some(f) => match stored_in(&f.values, field) {
                None => {},
                Some(v) => match select_field_in(&f.fields, field) {
                    Some(select) => match option_label_in(&select.options, v) {
                        Some(label) => push_scalar_text(&mut out, label),
                        None => push_scalar_text(&mut out, v),
                    },
                    None => push_scalar_text(&mut out, v),
                },
            },
        }
        out
    }

    /// Select fields display their option label; other fields display the
    /// stored value.
    pub fn form_data(&self, field: &str) -> (out: String)
        ensures
            out@ == form_data_spec(self@.form, field@),
    {
        string_from_chars(&self.form_data_chars(&str_chars(field)))
    }

    /// The stored value of `field`, as written into the page.
    pub fn form_raw(&self, field: &str) -> (out: String)
        ensures
            out@ == form_raw_spec(self@.form, field@),
    {
        string_from_chars(&self.form_raw_chars(&str_chars(field)))
    }

    fn value_chars(&self, token: &[char]) -> (out: Option<Vec<char>>)
        ensures
            match out {
                Some(v) => value_spec(self@, token@) == Some(v@),
                None => value_spec(self@, token@) is None,
            },
    {
        if let Some(field) = field_argument_chars(token, &form_data_name_chars()) {
            return Some(self.form_data_chars(&field));
        }
        if let Some(field) = field_argument_chars(token, &form_raw_name_chars()) {
            return Some(self.form_raw_chars(&field));
        }
        let fullname = str_chars(self.fullname);
        if chars_eq(token, &name_token_chars()) {
            let (_category, name) = split_category(self.fullname);
            Some(str_chars(name.as_str()))
        } else if chars_eq(token, &fullname_token_chars()) {
            Some(fullname)
        } else if chars_eq(token, &title_token_chars()) {
            Some(str_chars(self.title))
        } else if chars_eq(token, &linked_title_token_chars()) || chars_eq(token, &title_linked_token_chars()) {
            let mut out = link_open_chars();
            push_all(&mut out, &fullname);
            push_all(&mut out, &link_close_empty_chars());
            Some(out)
        } else if chars_eq(token, &link_token_chars()) {
            let mut out = vec!['/'];
            push_all(&mut out, &fullname);
            Some(out)
        } else if chars_eq(token, &created_at_token_chars()) {
            match self.created_at {
                Some(n) => {
                    let mut out: Vec<char> = Vec::new();
                    push_date(&mut out, n);
                    Some(out)
                },
                None => None,
            }
        } else if chars_eq(token, &updated_at_token_chars()) {
            match self.updated_at {
                Some(n) => {
                    let mut out: Vec<char> = Vec::new();
                    push_date(&mut out, n);
                    Some(out)
                },
                None => None,
            }
        } else {
            None
        }
    }

    /// The value of `token` for this page; `None` for an unknown token or one
    /// whose value this page lacks.
    pub fn value(&self, token: &str) -> (out: Option<String>)
        ensures
            match out {
                Some(v) => value_spec(self@, token@) == Some(v@),
                None => value_spec(self@, token@) is None,
            },
    {
        match self.value_chars(&str_chars(token)) {
            Some(v) => Some(string_from_chars(&v)),
            None => None,
        }
    }
}

// ---------------------------------------------------------------- substitution

/// `t[i..]` with every recognized token replaced by its value; a `%%` that
/// opens no recognized token is copied and the search goes on after it.
pub open spec fn subst_from(t: Seq<char>, tokens: TokensView, i: int) -> Seq<char>
    decreases t.len() - i,
{
    if i < 0 || i > t.len() {
        seq![]
    } else {
        match find_from(t, percent_pair(), i) {
            None => t.subrange(i, t.len() as int),
            Some(s) => if i <= s && s + 2 <= t.len() {
                match find_from(t, percent_pair(), s + 2) {
                    Some(e) => if s + 2 <= e && e + 2 <= t.len()
                        && is_token_name_spec(t.subrange(s + 2, e))
                        && value_spec(tokens, t.subrange(s + 2, e)) is Some {
                        t.subrange(i, s) + value_spec(tokens, t.subrange(s + 2, e)).unwrap()
                            + subst_from(t, tokens, e + 2)
                    } else {
                        t.subrange(i, s) + percent_pair() + subst_from(t, tokens, s + 2)
                    },
                    None => t.subrange(i, s) + percent_pair() + subst_from(t, tokens, s + 2),
                }
            } else {
                seq![]
            },
        }
    }
}

/// `t` with every recognized `%%token%%` replaced by its value.
pub open spec fn substitute_tokens_spec(t: Seq<char>, tokens: TokensView) -> Seq<char> {
    subst_from(t, tokens, 0)
}

fn substitute_chars(t: &[char], tokens: &PageTokens) -> (out: Vec<char>)
    ensures
        out@ == substitute_tokens_spec(t@, tokens@),
{
    let pp = percent_pair_chars();
    let mut out: Vec<char> = Vec::new();
    let mut i: usize = 0;
    loop
        invariant
            i <= t.len(),
            pp@ == percent_pair(),
            out@ + subst_from(t@, tokens@, i as int) == subst_from(t@, tokens@, 0),
        decreases t.len() - i,
    {
        proof { lemma_find_from_bounds(t@, pp@, i as int); }
        let ghost before = out@;
        match chars_find_from(t, &pp, i) {
            None => {
                push_sub(&mut out, t, i, t.len());
                return out;
            },
            Some(s) => {
                push_sub(&mut out, t, i, s);
                let after = s + 2;
                proof { lemma_find_from_bounds(t@, pp@, after as int); }
                let mut next: Option<(Vec<char>, usize)> = None;
                match chars_find_from(t, &pp, after) {
                    Some(e) => {
                        let token = chars_sub(t, after, e);
                        if is_token_name_chars(&token) {
                            match tokens.value_chars(&token) {
                                Some(v) => {
                                    next = Some((v, e + 2));
                                },
                                None => {},
                            }
                        }
                    },
                    None => {},
                }
                match next {
                    Some((v, resume)) => {
                        push_all(&mut out, &v);
                        assert(before + subst_from(t@, tokens@, i as int) =~= out@ + subst_from(t@, tokens@, resume as int));
                        i = resume;
                    },
                    None => {
                        push_all(&mut out, &pp);
                        assert(before + subst_from(t@, tokens@, i as int) =~= out@ + subst_from(t@, tokens@, after as int));
                        i = after;
                    },
                }
            },
        }
    }
}

/// Replace every recognized `%%token%%`; unrecognized markers are copied
/// unchanged.
pub fn substitute_tokens(text: &str, tokens: &PageTokens) -> (out: String)
    ensures
        out@ == substitute_tokens_spec(text@, tokens@),
{
    string_from_chars(&substitute_chars(&str_chars(text), tokens))
}

/// Text without a `%%` is left unchanged by token substitution.
pub proof fn lemma_substitution_without_markers(t: Seq<char>, tokens: TokensView)
    requires
        find_from(t, percent_pair(), 0) is None,
    ensures
        substitute_tokens_spec(t, tokens) == t,
{
    assert(t.subrange(0, t.len() as int) =~= t);
}

/// `t` with tokens substituted everywhere but in the item templates of the
/// modules from the `k`-th on, `copied` being where the text still to write
/// starts.
pub open spec fn outside_from(t: Seq<char>, blocks: Seq<BlockView>, tokens: TokensView, k: int, copied: int) -> Seq<char>
    decreases blocks.len() - k,
{
    if k < 0 || k >= blocks.len() {
        substitute_tokens_spec(t.subrange(copied, t.len() as int), tokens)
    } else {
        substitute_tokens_spec(t.subrange(copied, blocks[k].body_start), tokens) + blocks[k].body
            + outside_from(t, blocks, tokens, k + 1, blocks[k].body_end)
    }
}

/// Tokens substituted everywhere except in module item templates, whose
/// tokens describe the pages those modules list.
pub open spec fn substitute_outside_spec(t: Seq<char>, tokens: TokensView) -> Seq<char> {
    outside_from(t, blocks_of(t), tokens, 0, 0)
}

/// Substitute tokens everywhere except nested module item templates, whose
/// tokens describe the pages those modules list.
pub fn substitute_outside_module_bodies(text: &str, tokens: &PageTokens) -> (out: String)
    ensures
        out@ == substitute_outside_spec(text@, tokens@),
{
    let t = str_chars(text);
    let blocks = blocks_in_chars(text);
    let ghost bv = blocks_of(t@);
    proof { lemma_blocks_ordered(t@); }
    let mut out: Vec<char> = Vec::new();
    let mut copied: usize = 0;
    let mut k: usize = 0;
    while k < blocks.len()
        invariant
            k <= blocks@.len(),
            t@ == text@,
            bv == blocks_of(t@),
            blocks@.len() == bv.len(),
            forall|j: int| 0 <= j < blocks@.len() ==> crate::render::list_pages::block_is(#[trigger] blocks@[j], bv[j]),
            forall|j: int| 0 <= j < bv.len() ==> block_in(#[trigger] bv[j], block_search_start(bv, 0, j), t@.len() as int),
            copied <= t@.len(),
            k < bv.len() ==> copied <= bv[k as int].body_start,
            out@ + outside_from(t@, bv, tokens@, k as int, copied as int) == outside_from(t@, bv, tokens@, 0, 0),
        decreases blocks@.len() - k,
    {
        let ghost before = out@;
        let b = &blocks[k];
        assert(crate::render::list_pages::block_is(blocks@[k as int], bv[k as int]));
        assert(block_in(bv[k as int], block_search_start(bv, 0, k as int), t@.len() as int));
        let part = substitute_chars(&chars_sub(&t, copied, b.body_range.start), tokens);
        push_all(&mut out, &part);
        push_all(&mut out, &str_chars(b.body.as_str()));
        assert(before + outside_from(t@, bv, tokens@, k as int, copied as int)
            =~= out@ + outside_from(t@, bv, tokens@, k as int + 1, b.body_range.end as int));
        copied = b.body_range.end;
        proof {
            if k + 1 < bv.len() {
                assert(block_in(bv[k + 1], block_search_start(bv, 0, k + 1), t@.len() as int));
            }
        }
        k = k + 1;
    }
    let rest = substitute_chars(&chars_sub(&t, copied, t.len()), tokens);
    push_all(&mut out, &rest);
    string_from_chars(&out)
}

// ---------------------------------------------------------------- live templates

/// Where the line starting at `offset` ends, its newline included.
pub open spec fn line_end(s: Seq<char>, offset: int) -> int {
    match find_from(s, seq!['\n'], offset) {
        Some(k) => k + 1,
        None => s.len() as int,
    }
}

/// Where the part of a live template shown on pages ends: at the first line
/// from `offset` on that reads `====` once trailing whitespace is dropped.
pub open spec fn live_end_from(s: Seq<char>, offset: int) -> int
    decreases s.len() - offset,
{
    if offset < 0 || offset >= s.len() {
        s.len() as int
    } else if offset < line_end(s, offset) <= s.len() {
        if trim_end(s.subrange(offset, line_end(s, offset))) == separator_line() {
            offset
        } else {
            live_end_from(s, line_end(s, offset))
        }
    } else {
        s.len() as int
    }
}

pub open spec fn live_section_spec(body: Seq<char>) -> Seq<char> {
    body.subrange(0, live_end_from(body, 0))
}

proof fn lemma_live_end_bounds(s: Seq<char>, offset: int)
    requires
        0 <= offset,
    ensures
        0 <= live_end_from(s, offset) <= s.len(),
    decreases s.len() - offset,
{
    if offset < s.len() && offset < line_end(s, offset) <= s.len()
        && trim_end(s.subrange(offset, line_end(s, offset))) != separator_line() {
        lemma_live_end_bounds(s, line_end(s, offset));
    }
}

/// The template text shown on pages is everything before the first `====` line.
pub fn live_section(body: &str) -> (out: String)
    ensures
        out@ == live_section_spec(body@),
{
    let s = str_chars(body);
    let nl = vec!['\n'];
    assert(nl@ =~= seq!['\n']);
    let sep = separator_line_chars();
    let mut offset: usize = 0;
    while offset < s.len()
        invariant
            offset <= s.len(),
            nl@ == seq!['\n'],
            sep@ == separator_line(),
            s@ == body@,
            live_end_from(s@, offset as int) == live_end_from(s@, 0),
        decreases s.len() - offset,
    {
        proof { lemma_find_from_bounds(s@, nl@, offset as int); }
        let end = match chars_find_from(&s, &nl, offset) {
            Some(k) => k + 1,
            None => s.len(),
        };
        assert(end == line_end(s@, offset as int));
        assert(offset < end <= s.len());
        let line = chars_sub(&s, offset, end);
        let j = chars_trim_end_at(&line, line.len());
        proof { lemma_trim_end_bounds(line@, line.len() as int); }
        let head = chars_sub(&line, 0, j);
        let is_sep = chars_eq(&head, &sep);
        assert(trim_end(line@) == line@.subrange(0, j as int));
        assert(is_sep == (trim_end(s@.subrange(offset as int, line_end(s@, offset as int))) == separator_line()));
        if is_sep {
            assert(live_end_from(s@, offset as int) == offset);
            return string_from_chars(&chars_sub(&s, 0, offset));
        }
        assert(live_end_from(s@, offset as int) == live_end_from(s@, end as int));
        offset = end;
    }
    proof { lemma_live_end_bounds(s@, 0); }
    string_from_chars(&s)
}

} // verus!
