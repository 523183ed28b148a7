use vstd::prelude::*;
use crate::config::Settings;
use crate::groups::{internal_topic, is_internal_topic};

verus! {

/// What `str::to_lowercase` makes of a text.
pub uninterp spec fn lowercase_of(s: Seq<char>) -> Seq<char>;

/// Relies on `str::to_lowercase`: the lowercase form of a text, which
/// depends on its characters alone.
#[verifier::external_body]
fn lowercase(s: &str) -> (r: String)
    ensures
        r@ == lowercase_of(s@),
{
    s.to_lowercase()
}

/// The value of a sequence of decimal digits.
pub open spec fn digits_value(s: Seq<char>) -> int
    decreases s.len(),
{
    if s.len() == 0 {
        0
    } else {
        digits_value(s.drop_last()) * 10 + (s.last() as int - '0' as int)
    }
}

/// Whether `s` holds decimal digits and nothing else.
pub open spec fn all_digits(s: Seq<char>) -> bool {
    forall|i: int| 0 <= i < s.len() ==> '0' <= #[trigger] s[i] <= '9'
}

/// The `i32` that a text writes in decimal: an optional sign, then one or
/// more digits, the value in range.
pub open spec fn decimal_i32(s: Seq<char>) -> Option<i32> {
    let signed = s.len() > 0 && (s[0] == '-' || s[0] == '+');
    let body = if signed {
        s.drop_first()
    } else {
        s
    };
    let v = if signed && s[0] == '-' {
        -digits_value(body)
    } else {
        digits_value(body)
    };
    if body.len() > 0 && all_digits(body) && i32::MIN <= v <= i32::MAX {
        Some(v as i32)
    } else {
        None
    }
}

/// Relies on `str::parse::<i32>`: it accepts an optional `+` or `-` followed
/// by one or more decimal digits whose value fits, and nothing else.
#[verifier::external_body]
fn parse_i32(s: &str) -> (r: Option<i32>)
    ensures
        r == decimal_i32(s@),
{
    s.parse::<i32>().ok()
}

/// The resource whose configuration is described or altered.
#[derive(Debug)]
pub enum ConfigResource {
    Topic(String),
    Broker(i32),
}

/// Why a configuration resource could not be named.
#[derive(Clone, Copy, Debug, PartialEq, Eq, Structural)]
pub enum ConfigResourceError {
    /// The entity type is neither a topic nor a broker.
    UnsupportedEntityType,
    /// A broker was named by something other than its numeric id.
    InvalidBrokerId,
}

/// Whether an entity type, in lowercase, names topics.
pub open spec fn names_topic(t: Seq<char>) -> bool {
    t == "topics"@ || t == "topic"@
}

/// Whether an entity type, in lowercase, names brokers.
pub open spec fn names_broker(t: Seq<char>) -> bool {
    t == "brokers"@ || t == "broker"@
}

/// The resource of type `entity_type` (`topic(s)` or `broker(s)`, in any
/// case) and name `entity_name`; a broker is named by its numeric id.
pub fn config_resource(entity_type: &str, entity_name: &str) -> (r: Result<
    ConfigResource,
    ConfigResourceError,
>)
    ensures
        names_topic(lowercase_of(entity_type@)) ==> (r matches Ok(ConfigResource::Topic(n))
            && n@ == entity_name@),
        names_broker(lowercase_of(entity_type@)) ==> match decimal_i32(entity_name@) {
            Some(id) => (r matches Ok(ConfigResource::Broker(b)) && b == id),
            None => r == Err::<ConfigResource, ConfigResourceError>(
                ConfigResourceError::InvalidBrokerId,
            ),
        },
        !names_topic(lowercase_of(entity_type@)) && !names_broker(lowercase_of(entity_type@))
            ==> r == Err::<ConfigResource, ConfigResourceError>(
            ConfigResourceError::UnsupportedEntityType,
        ),
{
    let t = lowercase(entity_type);
    proof {
        reveal_strlit("topics");
        reveal_strlit("topic");
        reveal_strlit("brokers");
        reveal_strlit("broker");
        assert("topics"@[0] != "brokers"@[0] && "topics"@[0] != "broker"@[0]);
        assert("topic"@[0] != "brokers"@[0] && "topic"@[0] != "broker"@[0]);
    }
    if t == "topics".to_owned() || t == "topic".to_owned() {
        Ok(ConfigResource::Topic(entity_name.to_owned()))
    } else if t == "brokers".to_owned() || t == "broker".to_owned() {
        match parse_i32(entity_name) {
            Some(id) => Ok(ConfigResource::Broker(id)),
            None => Err(ConfigResourceError::InvalidBrokerId),
        }
    } else {
        Err(ConfigResourceError::UnsupportedEntityType)
    }
}

/// The entries of a configuration change: each key to set with its value,
/// and each key to delete with an empty value, a deletion winning over a
/// setting of the same key.
pub fn alter_entries(configs_to_set: &Settings, configs_to_delete: &[String]) -> (r: Settings)
    ensures
        forall|k: Seq<char>|
            #[trigger] r@.contains_key(k) <==> (configs_to_set@.contains_key(k) || exists|i: int|
                0 <= i < configs_to_delete@.len() && configs_to_delete@[i]@ == k),
        forall|k: Seq<char>|
            #[trigger] r@.contains_key(k) ==> r@[k] == if exists|i: int|
                0 <= i < configs_to_delete@.len() && configs_to_delete@[i]@ == k {
                Seq::<char>::empty()
            } else {
                configs_to_set@[k]
            },
{
    let mut r = Settings::new();
    r.set_all(configs_to_set);
    let mut i: usize = 0;
    while i < configs_to_delete.len()
        invariant
            i <= configs_to_delete@.len(),
            forall|k: Seq<char>|
                #[trigger] r@.contains_key(k) <==> (configs_to_set@.contains_key(k) || exists|j: int|
                    0 <= j < i && configs_to_delete@[j]@ == k),
            forall|k: Seq<char>|
                #[trigger] r@.contains_key(k) ==> r@[k] == if exists|j: int|
                    0 <= j < i && configs_to_delete@[j]@ == k {
                    Seq::<char>::empty()
                } else {
                    configs_to_set@[k]
                },
        decreases configs_to_delete@.len() - i,
    {
        r.set(configs_to_delete[i].as_str(), "");
        proof {
            reveal_strlit("");
            let d = configs_to_delete@[i as int]@;
            assert forall|k: Seq<char>| #[trigger] r@.contains_key(k) <==> (configs_to_set@.contains_key(k)
                || exists|j: int| 0 <= j < i + 1 && configs_to_delete@[j]@ == k) by {
                if k == d {
                    assert(configs_to_delete@[i as int]@ == k);
                }
            }
            assert forall|k: Seq<char>| #[trigger] r@.contains_key(k) implies r@[k] == if exists|j: int|
                0 <= j < i + 1 && configs_to_delete@[j]@ == k {
                Seq::<char>::empty()
            } else {
                configs_to_set@[k]
            } by {
                if k == d {
                    assert(configs_to_delete@[i as int]@ == k);
                } else {
                    if exists|j: int| 0 <= j < i + 1 && configs_to_delete@[j]@ == k {
                        let j = choose|j: int| 0 <= j < i + 1 && configs_to_delete@[j]@ == k;
                        assert(j < i);
                    }
                }
            }
        }
        i = i + 1;
    }
    r
}

/// The topics of `names` meant for users, in order: those that are not
/// internal to the broker.
pub fn user_topics(names: &Vec<String>) -> (r: Vec<String>)
    ensures
        r@ == names@.filter(|n: String| !internal_topic(n@)),
{
    let mut r: Vec<String> = Vec::new();
    let mut i: usize = 0;
    while i < names.len()
        invariant
            i <= names.len(),
            r@ == names@.subrange(0, i as int).filter(|n: String| !internal_topic(n@)),
        decreases names.len() - i,
    {
        let ghost before = names@.subrange(0, i as int);
        let ghost after = names@.subrange(0, i as int + 1);
        assert(after.drop_last() =~= before);
        reveal(Seq::filter);
        if !is_internal_topic(names[i].as_str()) {
            r.push(names[i].clone());
        }
        i = i + 1;
    }
    assert(names@.subrange(0, names@.len() as int) =~= names@);
    r
}

/// Whether topic `name` is among those asked for, where no names at all
/// means every topic.
pub fn topic_requested(requested: &Vec<String>, name: &str) -> (r: bool)
    ensures
        r == (requested@.len() == 0 || exists|i: int|
            0 <= i < requested@.len() && #[trigger] requested@[i]@ == name@),
{
    if requested.len() == 0 {
        return true;
    }
    let key = name.to_owned();
    let mut i: usize = 0;
    while i < requested.len()
        invariant
            i <= requested.len(),
            key@ == name@,
            forall|j: int| 0 <= j < i ==> requested@[j]@ != name@,
        decreases requested.len() - i,
    {
        if requested[i] == key {
            assert(requested@[i as int]@ == name@);
            return true;
        }
        i = i + 1;
    }
    false
}

} // verus!
