use vstd::prelude::*;
use vstd::string::StrSliceExecFns;

verus! {

/// What `str::trim` makes of a text: the text without its leading and
/// trailing white space.
pub uninterp spec fn trimmed(s: Seq<char>) -> Seq<char>;

/// Relies on `str::trim`: the text without leading and trailing white space,
/// which depends on the characters alone.
#[verifier::external_body]
fn trim_text(s: &str) -> (r: String)
    ensures
        r@ == trimmed(s@),
{
    s.trim().to_string()
}

/// Whether `i` is the position of the first `=` in `s`.
pub open spec fn first_equals_at(s: Seq<char>, i: int) -> bool {
    0 <= i < s.len() && s[i] == '=' && forall|j: int| 0 <= j < i ==> s[j] != '='
}

/// `s` cut at its first `=` into the text before and the text after it.
pub open spec fn split_at_equals(s: Seq<char>) -> Option<(Seq<char>, Seq<char>)> {
    if exists|i: int| first_equals_at(s, i) {
        let i = choose|i: int| first_equals_at(s, i);
        Some((s.subrange(0, i), s.subrange(i + 1, s.len() as int)))
    } else {
        None
    }
}

/// The setting that a `key=value` text stands for, both sides trimmed.
pub open spec fn property_of(s: Seq<char>) -> Option<(Seq<char>, Seq<char>)> {
    match split_at_equals(s) {
        Some((k, v)) => Some((trimmed(k), trimmed(v))),
        None => None,
    }
}

/// The settings given by `key=value` texts, in order, a later one for a key
/// replacing an earlier one. Texts without `=` are skipped.
pub open spec fn properties_map(props: Seq<String>) -> Map<Seq<char>, Seq<char>>
    decreases props.len(),
{
    if props.len() == 0 {
        Map::empty()
    } else {
        let m = properties_map(props.drop_last());
        match property_of(props.last()@) {
            Some((k, v)) => m.insert(k, v),
            None => m,
        }
    }
}

/// Whether a line of a configuration file carries no setting: it is blank
/// or a comment.
pub open spec fn skipped_line(t: Seq<char>) -> bool {
    t.len() == 0 || t[0] == '#'
}

/// The settings given by the lines of a configuration file, in order. Each
/// line is trimmed; blank lines and comments (`#`) are skipped.
pub open spec fn config_lines_map(lines: Seq<String>) -> Map<Seq<char>, Seq<char>>
    decreases lines.len(),
{
    if lines.len() == 0 {
        Map::empty()
    } else {
        let m = config_lines_map(lines.drop_last());
        let t = trimmed(lines.last()@);
        if skipped_line(t) {
            m
        } else {
            match property_of(t) {
                Some((k, v)) => m.insert(k, v),
                None => m,
            }
        }
    }
}

/// The map that a list of settings stands for; a later entry for a key
/// replaces an earlier one.
pub open spec fn entries_map(entries: Seq<(String, String)>) -> Map<Seq<char>, Seq<char>>
    decreases entries.len(),
{
    if entries.len() == 0 {
        Map::empty()
    } else {
        entries_map(entries.drop_last()).insert(entries.last().0@, entries.last().1@)
    }
}

/// Client settings, as keys and values, in the order they were set.
#[derive(Debug)]
pub struct Settings {
    pub entries: Vec<(String, String)>,
}

impl View for Settings {
    type V = Map<Seq<char>, Seq<char>>;

    open spec fn view(&self) -> Map<Seq<char>, Seq<char>> {
        entries_map(self.entries@)
    }
}

/// The position of the first `=` in `s`, if any.
fn find_equals(s: &str) -> (r: Option<usize>)
    ensures
        match r {
            Some(i) => first_equals_at(s@, i as int),
            None => forall|j: int| 0 <= j < s@.len() ==> s@[j] != '=',
        },
{
    let n = s.unicode_len();
    let mut i: usize = 0;
    while i < n
        invariant
            n == s@.len(),
            i <= n,
            forall|j: int| 0 <= j < i ==> s@[j] != '=',
        decreases n - i,
    {
        if s.get_char(i) == '=' {
            return Some(i);
        }
        i = i + 1;
    }
    None
}

/// The trimmed key and value of a `key=value` text, cut at its first `=`.
fn parse_property(s: &str) -> (r: Option<(String, String)>)
    ensures
        match r {
            Some((k, v)) => property_of(s@) == Some((k@, v@)),
            None => property_of(s@) is None,
        },
{
    match find_equals(s) {
        Some(i) => {
            proof {
                let c = choose|j: int| first_equals_at(s@, j);
                assert(first_equals_at(s@, c));
                if c < i {
                    assert(s@[c] != '=');
                }
                if i < c {
                    assert(s@[i as int] != '=');
                }
            }
            let n = s.unicode_len();
            let key = trim_text(s.substring_char(0, i));
            let value = trim_text(s.substring_char(i + 1, n));
            Some((key, value))
        },
        None => {
            assert(!exists|j: int| first_equals_at(s@, j));
            None
        },
    }
}

impl Settings {
    /// No settings.
    pub fn new() -> (r: Settings)
        ensures
            r@ == Map::<Seq<char>, Seq<char>>::empty(),
    {
        Settings { entries: Vec::new() }
    }

    /// Sets `key` to `value`, replacing any earlier value.
    pub fn set(&mut self, key: &str, value: &str)
        ensures
            final(self)@ == old(self)@.insert(key@, value@),
    {
        self.set_owned(key.to_owned(), value.to_owned());
    }

    /// Sets `key` to `value`, replacing any earlier value.
    fn set_owned(&mut self, key: String, value: String)
        ensures
            final(self)@ == old(self)@.insert(key@, value@),
    {
        let ghost before = self.entries@;
        self.entries.push((key, value));
        assert(self.entries@.drop_last() =~= before);
    }

    /// Sets every key of `other` to its value there.
    pub fn set_all(&mut self, other: &Settings)
        ensures
            final(self)@ == old(self)@.union_prefer_right(other@),
    {
        let ghost start = self@;
        let mut i: usize = 0;
        while i < other.entries.len()
            invariant
                i <= other.entries@.len(),
                self@ == start.union_prefer_right(entries_map(other.entries@.subrange(0, i as int))),
            decreases other.entries@.len() - i,
        {
            let ghost done = other.entries@.subrange(0, i as int);
            let ghost next = other.entries@.subrange(0, i as int + 1);
            assert(next.drop_last() =~= done);
            let k = other.entries[i].0.clone();
            let v = other.entries[i].1.clone();
            self.set_owned(k, v);
            assert(self@ =~= start.union_prefer_right(entries_map(next)));
            i = i + 1;
        }
        assert(other.entries@.subrange(0, other.entries@.len() as int) =~= other.entries@);
    }
}

/// The settings given by `key=value` texts; a later one for a key replaces
/// an earlier one, and texts without `=` are skipped. Keys and values are
/// trimmed.
pub fn parse_properties(properties: &[String]) -> (r: Settings)
    ensures
        r@ == properties_map(properties@),
{
    let mut r = Settings::new();
    let mut i: usize = 0;
    while i < properties.len()
        invariant
            i <= properties@.len(),
            r@ == properties_map(properties@.subrange(0, i as int)),
        decreases properties@.len() - i,
    {
        let ghost done = properties@.subrange(0, i as int);
        let ghost next = properties@.subrange(0, i as int + 1);
        assert(next.drop_last() =~= done);
        if let Some((k, v)) = parse_property(properties[i].as_str()) {
            r.set_owned(k, v);
        }
        i = i + 1;
    }
    assert(properties@.subrange(0, properties@.len() as int) =~= properties@);
    r
}

/// The settings given by the lines of a configuration file. Each line is
/// trimmed; blank lines, comments (`#`) and lines without `=` are skipped.
pub fn parse_config_lines(lines: &[String]) -> (r: Settings)
    ensures
        r@ == config_lines_map(lines@),
{
    let mut r = Settings::new();
    let mut i: usize = 0;
    while i < lines.len()
        invariant
            i <= lines@.len(),
            r@ == config_lines_map(lines@.subrange(0, i as int)),
        decreases lines@.len() - i,
    {
        let ghost done = lines@.subrange(0, i as int);
        let ghost next = lines@.subrange(0, i as int + 1);
        assert(next.drop_last() =~= done);
        let t = trim_text(lines[i].as_str());
        let skip = t.as_str().unicode_len() == 0 || t.as_str().get_char(0) == '#';
        if !skip {
            if let Some((k, v)) = parse_property(t.as_str()) {
                r.set_owned(k, v);
            }
        }
        i = i + 1;
    }
    assert(lines@.subrange(0, lines@.len() as int) =~= lines@);
    r
}

/// Where a consumer without a committed offset starts.
pub open spec fn offset_reset_policy(from_beginning: bool) -> Seq<char> {
    if from_beginning {
        "earliest"@
    } else {
        "latest"@
    }
}

/// The common client settings: the bootstrap servers, overridden by the
/// settings of a configuration file, overridden by `key=value` properties.
pub open spec fn client_settings(
    bootstrap_servers: Seq<char>,
    file_settings: Option<Map<Seq<char>, Seq<char>>>,
    properties: Seq<String>,
) -> Map<Seq<char>, Seq<char>> {
    let base = Map::<Seq<char>, Seq<char>>::empty().insert("bootstrap.servers"@, bootstrap_servers);
    let with_file = match file_settings {
        Some(f) => base.union_prefer_right(f),
        None => base,
    };
    with_file.union_prefer_right(properties_map(properties))
}

/// The settings of a configuration file, if one was given, as a map.
pub open spec fn file_map(file_settings: Option<&Settings>) -> Option<Map<Seq<char>, Seq<char>>> {
    match file_settings {
        Some(f) => Some(f@),
        None => None,
    }
}

fn reset_policy_text(from_beginning: bool) -> (r: &'static str)
    ensures
        r@ == offset_reset_policy(from_beginning),
{
    if from_beginning {
        "earliest"
    } else {
        "latest"
    }
}

/// The client settings built from the bootstrap servers, the settings of a
/// configuration file, and `key=value` properties, each overriding the one
/// before.
pub fn build_client_config(
    bootstrap_servers: &str,
    file_settings: Option<&Settings>,
    properties: &[String],
) -> (r: Settings)
    ensures
        r@ == client_settings(bootstrap_servers@, file_map(file_settings), properties@),
{
    let mut config = Settings::new();
    config.set("bootstrap.servers", bootstrap_servers);
    if let Some(f) = file_settings {
        config.set_all(f);
    }
    let props = parse_properties(properties);
    config.set_all(&props);
    config
}

/// Consumer settings on top of `config`: the group, where to start without
/// a committed offset, the properties, and automatic commits, in that order.
pub fn get_consumer_config(
    config: Settings,
    group_id: &str,
    from_beginning: bool,
    properties: &[String],
) -> (r: Settings)
    ensures
        r@ == config@.insert("group.id"@, group_id@).insert(
            "auto.offset.reset"@,
            offset_reset_policy(from_beginning),
        ).union_prefer_right(properties_map(properties@)).insert("enable.auto.commit"@, "true"@),
{
    let mut config = config;
    config.set("group.id", group_id);
    config.set("auto.offset.reset", reset_policy_text(from_beginning));
    let props = parse_properties(properties);
    config.set_all(&props);
    config.set("enable.auto.commit", "true");
    config
}

/// Settings of a consumer run from the command line: the client settings,
/// then the group given, or `generated_group_id` where none is, where to
/// start without a committed offset, and automatic commits.
pub fn get_consumer_config_cli(
    bootstrap_servers: &str,
    group_id: Option<&str>,
    file_settings: Option<&Settings>,
    properties: &[String],
    from_beginning: bool,
    generated_group_id: &str,
) -> (r: Settings)
    ensures
        r@ == client_settings(bootstrap_servers@, file_map(file_settings), properties@).insert(
            "group.id"@,
            match group_id {
                Some(g) => g@,
                None => generated_group_id@,
            },
        ).insert("auto.offset.reset"@, offset_reset_policy(from_beginning)).insert(
            "enable.auto.commit"@,
            "true"@,
        ),
{
    let mut config = build_client_config(bootstrap_servers, file_settings, properties);
    match group_id {
        Some(g) => config.set("group.id", g),
        None => config.set("group.id", generated_group_id),
    }
    config.set("auto.offset.reset", reset_policy_text(from_beginning));
    config.set("enable.auto.commit", "true");
    config
}

/// Settings of a producer: the client settings, the compression where one
/// is given, and a delivery timeout of thirty seconds.
pub fn get_producer_config(
    bootstrap_servers: &str,
    file_settings: Option<&Settings>,
    properties: &[String],
    compression_type: Option<&str>,
) -> (r: Settings)
    ensures
        r@ == (match compression_type {
            Some(c) => client_settings(bootstrap_servers@, file_map(file_settings), properties@).insert(
                "compression.type"@,
                c@,
            ),
            None => client_settings(bootstrap_servers@, file_map(file_settings), properties@),
        }).insert("message.timeout.ms"@, "30000"@),
{
    let mut config = build_client_config(bootstrap_servers, file_settings, properties);
    if let Some(c) = compression_type {
        config.set("compression.type", c);
    }
    config.set("message.timeout.ms", "30000");
    config
}

} // verus!
