//! The settings, their defaults, and how a configuration text changes them.
//!
//! A configuration text is a TOML document. Each setting is read from the
//! key of its name; a key that is missing, or whose value has another type
//! than the setting, leaves the setting as it is. A text that is no TOML
//! document changes nothing.

use crate::address::Address;
use crate::filter::compiled_from;
use crate::text::{same_text, to_chars};
use regex::Regex;
use vstd::prelude::*;
use vstd::string::*;

verus! {

/// One value of a configuration text, as far as the settings read it: a
/// list keeps its texts and marks every other item as `None`.
pub enum Setting {
    Text(String),
    Flag(bool),
    Number(i64),
    List(Vec<Option<String>>),
    Other,
}

/// One key of a configuration text with its value.
pub struct Entry {
    pub key: String,
    pub value: Setting,
}

/// A value of a configuration text as contracts speak of it.
pub enum SettingModel {
    Text(Seq<char>),
    Flag(bool),
    Number(int),
    List(Seq<Option<Seq<char>>>),
    Other,
}

/// The settings as contracts speak of them.
#[verifier::ext_equal]
pub struct ConfigModel {
    pub counterfile: Seq<char>,
    pub bind_addr: Seq<char>,
    pub image_dir: Seq<char>,
    pub img_format: Seq<char>,
    pub content_type: Seq<char>,
    pub count_unique: bool,
    pub timeout: nat,
    pub blacklist: Seq<Seq<char>>,
    pub ua_list: Seq<Seq<char>>,
    pub allow_empty_ua: bool,
}

/// The settings of a counter. The blacklist and the user agent patterns are
/// held as the configuration text writes them.
pub struct Config {
    pub counterfile: String,
    pub bind_addr: String,
    pub image_dir: String,
    pub img_format: String,
    pub content_type: String,
    pub count_unique: bool,
    pub timeout: u64,
    pub blacklist: Vec<String>,
    pub ua_list: Vec<String>,
    pub allow_empty_ua: bool,
}

/// The texts that a list of strings holds.
pub open spec fn text_views(list: Seq<String>) -> Seq<Seq<char>> {
    list.map_values(|s: String| s@)
}

/// The items of a list as contracts speak of them.
pub open spec fn item_views(items: Seq<Option<String>>) -> Seq<Option<Seq<char>>> {
    items.map_values(
        |item: Option<String>|
            match item {
                Some(s) => Some(s@),
                None => None,
            },
    )
}

impl View for Setting {
    type V = SettingModel;

    open spec fn view(&self) -> SettingModel {
        match self {
            Setting::Text(s) => SettingModel::Text(s@),
            Setting::Flag(b) => SettingModel::Flag(*b),
            Setting::Number(n) => SettingModel::Number(*n as int),
            Setting::List(items) => SettingModel::List(item_views(items@)),
            Setting::Other => SettingModel::Other,
        }
    }
}

impl View for Entry {
    type V = (Seq<char>, SettingModel);

    open spec fn view(&self) -> (Seq<char>, SettingModel) {
        (self.key@, self.value@)
    }
}

impl View for Config {
    type V = ConfigModel;

    open spec fn view(&self) -> ConfigModel {
        ConfigModel {
            counterfile: self.counterfile@,
            bind_addr: self.bind_addr@,
            image_dir: self.image_dir@,
            img_format: self.img_format@,
            content_type: self.content_type@,
            count_unique: self.count_unique,
            timeout: self.timeout as nat,
            blacklist: text_views(self.blacklist@),
            ua_list: text_views(self.ua_list@),
            allow_empty_ua: self.allow_empty_ua,
        }
    }
}

/// The entries of a document as contracts speak of them.
pub open spec fn entry_views(entries: Seq<Entry>) -> Seq<(Seq<char>, SettingModel)> {
    entries.map_values(|e: Entry| e@)
}

/// The top-level keys of the TOML document `text` with their values, in the
/// order in which the `toml` crate's table yields them, or `None` where the
/// text is no TOML document.
pub uninterp spec fn toml_settings(text: Seq<char>) -> Option<Seq<(Seq<char>, SettingModel)>>;

/// Parses `text` with the `toml` crate (`toml::Table`'s `FromStr`) and hands
/// out the table's entries one for one: a string, a boolean and an integer
/// keep their value, an array keeps its strings, anything else is `Other`.
/// What the crate makes of a text depends on the text alone, so it is given
/// the name `toml_settings`; which entries a given text has is not stated.
#[verifier::external_body]
fn parse_toml(text: &str) -> (r: Option<Vec<Entry>>)
    ensures
        match r {
            Some(entries) => toml_settings(text@) == Some(entry_views(entries@)),
            None => toml_settings(text@) is None,
        },
{
    let table = text.parse::<toml::Table>().ok()?;
    Some(table.into_iter().map(|(key, value)| Entry { key, value: match value {
        toml::Value::String(s) => Setting::Text(s),
        toml::Value::Boolean(b) => Setting::Flag(b),
        toml::Value::Integer(n) => Setting::Number(n),
        toml::Value::Array(items) => Setting::List(items.into_iter().map(|item| match item {
            toml::Value::String(s) => Some(s),
            _ => None,
        }).collect()),
        _ => Setting::Other,
    } }).collect())
}

/// The value of the first entry of `doc` under `key`.
pub open spec fn lookup(doc: Seq<(Seq<char>, SettingModel)>, key: Seq<char>) -> Option<SettingModel>
    decreases doc.len(),
{
    if doc.len() == 0 {
        None
    } else if doc[0].0 == key {
        Some(doc[0].1)
    } else {
        lookup(doc.drop_first(), key)
    }
}

/// The text under `key`, or `current` where there is none.
pub open spec fn text_setting(
    doc: Seq<(Seq<char>, SettingModel)>,
    key: Seq<char>,
    current: Seq<char>,
) -> Seq<char> {
    match lookup(doc, key) {
        Some(SettingModel::Text(s)) => s,
        _ => current,
    }
}

/// The flag under `key`, or `current` where there is none.
pub open spec fn flag_setting(
    doc: Seq<(Seq<char>, SettingModel)>,
    key: Seq<char>,
    current: bool,
) -> bool {
    match lookup(doc, key) {
        Some(SettingModel::Flag(b)) => b,
        _ => current,
    }
}

/// The timeout under `key`, or `current` where there is no number of
/// seconds: a negative number is none.
pub open spec fn timeout_setting(
    doc: Seq<(Seq<char>, SettingModel)>,
    key: Seq<char>,
    current: nat,
) -> nat {
    match lookup(doc, key) {
        Some(SettingModel::Number(n)) => if n >= 0 {
            n as nat
        } else {
            current
        },
        _ => current,
    }
}

/// Whether every item of a list is a text.
pub open spec fn all_texts(items: Seq<Option<Seq<char>>>) -> bool {
    forall|i: int| 0 <= i < items.len() ==> (#[trigger] items[i]) is Some
}

/// The texts among the items of a list, in their order.
pub open spec fn texts_of(items: Seq<Option<Seq<char>>>) -> Seq<Seq<char>>
    decreases items.len(),
{
    if items.len() == 0 {
        Seq::empty()
    } else {
        match items.last() {
            Some(t) => texts_of(items.drop_last()).push(t),
            None => texts_of(items.drop_last()),
        }
    }
}

/// The addresses that a document adds to the blacklist: the items of the
/// list under `blacklist`, but only where every item of it is a text.
pub open spec fn blacklist_setting(doc: Seq<(Seq<char>, SettingModel)>) -> Seq<Seq<char>> {
    match lookup(doc, "blacklist"@) {
        Some(SettingModel::List(items)) => if all_texts(items) {
            texts_of(items)
        } else {
            Seq::empty()
        },
        _ => Seq::empty(),
    }
}

/// The patterns that a document adds: the texts among the items of the list
/// under `useragent_regexes`.
pub open spec fn patterns_setting(doc: Seq<(Seq<char>, SettingModel)>) -> Seq<Seq<char>> {
    match lookup(doc, "useragent_regexes"@) {
        Some(SettingModel::List(items)) => texts_of(items),
        _ => Seq::empty(),
    }
}

impl ConfigModel {
    /// The settings once the document `doc` is applied to them.
    pub open spec fn with_settings(self, doc: Seq<(Seq<char>, SettingModel)>) -> ConfigModel {
        ConfigModel {
            counterfile: text_setting(doc, "counterfile"@, self.counterfile),
            bind_addr: text_setting(doc, "bind_addr"@, self.bind_addr),
            image_dir: text_setting(doc, "image_dir"@, self.image_dir),
            img_format: text_setting(doc, "img_format"@, self.img_format),
            content_type: text_setting(doc, "content_type"@, self.content_type),
            count_unique: flag_setting(doc, "count_unique"@, self.count_unique),
            timeout: timeout_setting(doc, "timeout"@, self.timeout),
            blacklist: self.blacklist + blacklist_setting(doc),
            ua_list: self.ua_list + patterns_setting(doc),
            allow_empty_ua: flag_setting(doc, "allow_empty_uas"@, self.allow_empty_ua),
        }
    }

    /// The settings once the configuration text `text` is applied to them.
    pub open spec fn with_text(self, text: Seq<char>) -> ConfigModel {
        match toml_settings(text) {
            Some(doc) => self.with_settings(doc),
            None => self,
        }
    }
}

/// The settings of a counter that no configuration has touched.
pub open spec fn default_settings() -> ConfigModel {
    ConfigModel {
        counterfile: "count.bin"@,
        bind_addr: "0.0.0.0:1234"@,
        image_dir: "img"@,
        img_format: "jpg"@,
        content_type: "image/jpeg"@,
        count_unique: false,
        timeout: 3600,
        blacklist: Seq::empty(),
        ua_list: Seq::empty(),
        allow_empty_ua: false,
    }
}

impl Default for Config {
    fn default() -> (config: Config)
        ensures
            config@ == default_settings(),
    {
        let config = Config {
            counterfile: "count.bin".to_owned(),
            bind_addr: "0.0.0.0:1234".to_owned(),
            image_dir: "img".to_owned(),
            img_format: "jpg".to_owned(),
            content_type: "image/jpeg".to_owned(),
            count_unique: false,
            timeout: 3600,
            blacklist: Vec::new(),
            ua_list: Vec::new(),
            allow_empty_ua: false,
        };
        proof {
            assert(config@ =~= default_settings());
        }
        config
    }
}

/// Finds the value of the first entry under `key`.
pub fn find_setting<'a>(entries: &'a [Entry], key: &str) -> (r: Option<&'a Setting>)
    ensures
        match r {
            Some(value) => lookup(entry_views(entries@), key@) == Some(value@),
            None => lookup(entry_views(entries@), key@) is None,
        },
{
    let wanted = to_chars(key);
    let mut i: usize = 0;
    proof {
        assert(entry_views(entries@).skip(0) =~= entry_views(entries@));
    }
    while i < entries.len()
        invariant
            i <= entries@.len(),
            wanted@ == key@,
            lookup(entry_views(entries@), key@) == lookup(
                entry_views(entries@).skip(i as int),
                key@,
            ),
        decreases entries@.len() - i,
    {
        let name = to_chars(entries[i].key.as_str());
        proof {
            let rest = entry_views(entries@).skip(i as int);
            assert(rest[0] == entries@[i as int]@);
            assert(rest.drop_first() =~= entry_views(entries@).skip(i as int + 1));
        }
        if same_text(name.as_slice(), wanted.as_slice()) {
            return Some(&entries[i].value);
        }
        i = i + 1;
    }
    None
}

/// Copies the texts among the items of a list, in their order.
fn collect_texts(items: &[Option<String>]) -> (r: Vec<String>)
    ensures
        text_views(r@) == texts_of(item_views(items@)),
{
    let mut out: Vec<String> = Vec::new();
    let mut i: usize = 0;
    while i < items.len()
        invariant
            i <= items@.len(),
            text_views(out@) == texts_of(item_views(items@).take(i as int)),
        decreases items@.len() - i,
    {
        proof {
            let more = item_views(items@).take(i as int + 1);
            assert(more.drop_last() =~= item_views(items@).take(i as int));
        }
        match &items[i] {
            Some(text) => {
                let ghost before = out@;
                out.push(text.clone());
                proof {
                    assert(text_views(out@) =~= text_views(before).push(text@));
                }
            },
            None => {},
        }
        i = i + 1;
    }
    proof {
        assert(item_views(items@).take(i as int) =~= item_views(items@));
    }
    out
}

/// Whether every item of a list is a text.
fn only_texts(items: &[Option<String>]) -> (b: bool)
    ensures
        b == all_texts(item_views(items@)),
{
    let mut i: usize = 0;
    while i < items.len()
        invariant
            i <= items@.len(),
            forall|j: int| 0 <= j < i ==> (#[trigger] item_views(items@)[j]) is Some,
        decreases items@.len() - i,
    {
        if items[i].is_none() {
            proof {
                assert(item_views(items@)[i as int] is None);
            }
            return false;
        }
        i = i + 1;
    }
    true
}

/// Appends copies of `more` to `list`.
fn extend_texts(list: &mut Vec<String>, more: Vec<String>)
    ensures
        text_views(final(list)@) == text_views(old(list)@) + text_views(more@),
{
    let mut more = more;
    let ghost added = more@;
    list.append(&mut more);
    proof {
        assert(text_views(list@) =~= text_views(old(list)@) + text_views(added));
    }
}

/// The text under `key`, or a copy of `current` where there is none.
fn pick_text(entries: &[Entry], key: &str, current: &String) -> (r: String)
    ensures
        r@ == text_setting(entry_views(entries@), key@, current@),
{
    match find_setting(entries, key) {
        Some(Setting::Text(s)) => s.clone(),
        _ => current.clone(),
    }
}

/// The flag under `key`, or `current` where there is none.
fn pick_flag(entries: &[Entry], key: &str, current: bool) -> (r: bool)
    ensures
        r == flag_setting(entry_views(entries@), key@, current),
{
    match find_setting(entries, key) {
        Some(Setting::Flag(b)) => *b,
        _ => current,
    }
}

/// The timeout under `key`, or `current` where there is no number of
/// seconds.
fn pick_timeout(entries: &[Entry], key: &str, current: u64) -> (r: u64)
    ensures
        r == timeout_setting(entry_views(entries@), key@, current as nat),
{
    match find_setting(entries, key) {
        Some(Setting::Number(n)) => {
            if *n >= 0 {
                *n as u64
            } else {
                current
            }
        },
        _ => current,
    }
}

/// Applies the entries of a document to the settings.
pub fn apply_settings(config: &mut Config, entries: &[Entry])
    ensures
        final(config)@ == old(config)@.with_settings(entry_views(entries@)),
{
    config.counterfile = pick_text(entries, "counterfile", &config.counterfile);
    config.bind_addr = pick_text(entries, "bind_addr", &config.bind_addr);
    config.image_dir = pick_text(entries, "image_dir", &config.image_dir);
    config.img_format = pick_text(entries, "img_format", &config.img_format);
    config.content_type = pick_text(entries, "content_type", &config.content_type);
    config.count_unique = pick_flag(entries, "count_unique", config.count_unique);
    config.timeout = pick_timeout(entries, "timeout", config.timeout);
    match find_setting(entries, "blacklist") {
        Some(Setting::List(items)) => {
            if only_texts(items.as_slice()) {
                extend_texts(&mut config.blacklist, collect_texts(items.as_slice()));
            }
        },
        _ => {},
    }
    match find_setting(entries, "useragent_regexes") {
        Some(Setting::List(items)) => {
            extend_texts(&mut config.ua_list, collect_texts(items.as_slice()));
        },
        _ => {},
    }
    config.allow_empty_ua = pick_flag(entries, "allow_empty_uas", config.allow_empty_ua);
    proof {
        let doc = entry_views(entries@);
        assert(config@.blacklist =~= old(config)@.blacklist + blacklist_setting(doc));
        assert(config@.ua_list =~= old(config)@.ua_list + patterns_setting(doc));
        assert(config@ =~= old(config)@.with_settings(doc));
    }
}

/// Applies a configuration text to the settings. A text that is no TOML
/// document leaves them as they are.
pub fn load_config(config: &mut Config, text: &str)
    ensures
        final(config)@ == old(config)@.with_text(text@),
{
    match parse_toml(text) {
        Some(entries) => apply_settings(config, entries.as_slice()),
        None => {},
    }
}

/// The patterns that a run of compilations gave, in their order: every
/// refusal is left out.
pub open spec fn accepted(outcomes: Seq<Result<Regex, regex::Error>>) -> Seq<Regex>
    decreases outcomes.len(),
{
    if outcomes.len() == 0 {
        Seq::empty()
    } else {
        match outcomes.last() {
            Ok(re) => accepted(outcomes.drop_last()).push(re),
            Err(_) => accepted(outcomes.drop_last()),
        }
    }
}

/// Whether `outcomes` are what compiling `texts` gave, one for one: there is
/// an outcome for every text, and each pattern among them is the one that
/// the text at its place writes.
pub open spec fn compiled_each(
    outcomes: Seq<Result<Regex, regex::Error>>,
    texts: Seq<Seq<char>>,
) -> bool {
    &&& outcomes.len() == texts.len()
    &&& forall|i: int|
        0 <= i < outcomes.len() && (#[trigger] outcomes[i]) is Ok ==> compiled_from(
            outcomes[i]->Ok_0,
            texts[i],
        )
}

/// Every pattern among the outcomes is among the accepted ones.
pub proof fn lemma_accepted_holds_each(outcomes: Seq<Result<Regex, regex::Error>>, i: int)
    requires
        0 <= i < outcomes.len(),
        outcomes[i] is Ok,
    ensures
        accepted(outcomes).contains(outcomes[i]->Ok_0),
    decreases outcomes.len(),
{
    let front = outcomes.drop_last();
    if i == outcomes.len() - 1 {
        assert(accepted(outcomes).last() == outcomes[i]->Ok_0);
    } else {
        lemma_accepted_holds_each(front, i);
        let k = choose|k: int|
            0 <= k < accepted(front).len() && accepted(front)[k] == outcomes[i]->Ok_0;
        assert(accepted(outcomes)[k] == outcomes[i]->Ok_0);
    }
}

/// Compiles the user agent patterns of the settings, each text once and in
/// order, and hands out what the `regex` crate made of each: the pattern
/// that the text writes, or the crate's refusal. Which texts it accepts is
/// for the crate to say.
pub fn compile_patterns(patterns: &[String]) -> (outcomes: Vec<Result<Regex, regex::Error>>)
    ensures
        compiled_each(outcomes@, text_views(patterns@)),
{
    let mut out: Vec<Result<Regex, regex::Error>> = Vec::new();
    let mut i: usize = 0;
    while i < patterns.len()
        invariant
            i <= patterns@.len(),
            compiled_each(out@, text_views(patterns@).take(i as int)),
        decreases patterns@.len() - i,
    {
        let outcome = Regex::new(patterns[i].as_str());
        let ghost before = out@;
        out.push(outcome);
        proof {
            let texts = text_views(patterns@);
            assert forall|k: int| 0 <= k < out@.len() && (#[trigger] out@[k]) is Ok implies compiled_from(
                out@[k]->Ok_0,
                texts.take(i as int + 1)[k],
            ) by {
                if k < i {
                    assert(out@[k] == before[k]);
                    assert(texts.take(i as int)[k] == texts.take(i as int + 1)[k]);
                }
            }
        }
        i = i + 1;
    }
    proof {
        assert(text_views(patterns@).take(i as int) =~= text_views(patterns@));
    }
    out
}

/// The patterns among the outcomes of compiling, in their order: the block
/// patterns that the counter is given.
pub fn accepted_patterns(outcomes: Vec<Result<Regex, regex::Error>>) -> (patterns: Vec<Regex>)
    ensures
        patterns@ == accepted(outcomes@),
{
    let mut out: Vec<Regex> = Vec::new();
    let ghost all = outcomes@;
    for outcome in it: outcomes
        invariant
            it.seq() == all,
            out@ == accepted(all.take(it.index() as int)),
    {
        proof {
            assert(all.take(it.index() + 1).drop_last() =~= all.take(it.index() as int));
        }
        match outcome {
            Ok(re) => out.push(re),
            Err(_) => {},
        }
    }
    proof {
        assert(all.take(all.len() as int) =~= all);
    }
    out
}

/// The addresses among `parsed`, in their order: the blacklist that the
/// counter is given, once the caller has parsed each text of the settings'
/// blacklist and marked those that are no address with `None`.
pub fn valid_addresses(parsed: &[Option<Address>]) -> (r: Vec<Address>)
    ensures
        r@ == parsed@.filter(|a: Option<Address>| a is Some).map_values(
            |a: Option<Address>| a->0,
        ),
{
    let mut out: Vec<Address> = Vec::new();
    let mut i: usize = 0;
    let ghost keep = |a: Option<Address>| a is Some;
    let ghost value = |a: Option<Address>| a->0;
    while i < parsed.len()
        invariant
            i <= parsed@.len(),
            keep == |a: Option<Address>| a is Some,
            value == |a: Option<Address>| a->0,
            out@ == parsed@.take(i as int).filter(keep).map_values(value),
        decreases parsed@.len() - i,
    {
        proof {
            let seen = parsed@.take(i as int);
            let more = parsed@.take(i as int + 1);
            assert(more.drop_last() =~= seen);
            reveal(Seq::filter);
        }
        match parsed[i] {
            Some(addr) => {
                out.push(addr);
                proof {
                    let seen = parsed@.take(i as int);
                    let more = parsed@.take(i as int + 1);
                    assert(more.filter(keep) =~= seen.filter(keep).push(parsed@[i as int]));
                    assert(out@ =~= more.filter(keep).map_values(value));
                }
            },
            None => {},
        }
        i = i + 1;
    }
    proof {
        assert(parsed@.take(i as int) =~= parsed@);
    }
    out
}

} // verus!
