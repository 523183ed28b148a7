use vstd::prelude::*;

verus! {

/// A command line of the tool.
#[derive(Debug)]
pub struct Cli {
    pub command: Commands,
}

/// The tool's commands.
#[derive(Debug)]
pub enum Commands {
    /// Manage topics (create, list, describe, delete, alter).
    Topics(TopicsArgs),
    /// Produce messages to a topic.
    Produce(ProduceArgs),
    /// Consume messages from a topic.
    Consume(ConsumeArgs),
    /// Manage consumer groups.
    ConsumerGroups(ConsumerGroupsArgs),
    /// Manage configurations.
    Configs(ConfigsArgs),
}

/// Arguments of the topic commands.
#[derive(Debug)]
pub struct TopicsArgs {
    pub bootstrap_server: String,
    pub command_config: Option<String>,
    pub action: TopicAction,
}

/// What to do with topics.
#[derive(Debug)]
pub enum TopicAction {
    List,
    Create { topic: String, partitions: i32, replication_factor: i32, config: Vec<String> },
    Describe { topic: Vec<String> },
    Delete { topic: Vec<String> },
    Alter { topic: String, add_config: Vec<String>, delete_config: Vec<String> },
}

/// Arguments of the produce command.
#[derive(Debug)]
pub struct ProduceArgs {
    pub bootstrap_server: String,
    pub topic: String,
    /// Separates a message's key from its value; a tab where none is given.
    pub key_separator: Option<String>,
    pub property: Vec<String>,
    pub compression_type: Option<String>,
    pub command_config: Option<String>,
}

/// Arguments of the consume command.
#[derive(Debug)]
pub struct ConsumeArgs {
    pub bootstrap_server: String,
    pub topic: String,
    pub group: Option<String>,
    pub from_beginning: bool,
    pub max_messages: Option<usize>,
    pub property: Vec<String>,
    pub command_config: Option<String>,
    /// `default` or `json`.
    pub formatter: String,
}

/// Arguments of the consumer-group commands.
#[derive(Debug)]
pub struct ConsumerGroupsArgs {
    pub bootstrap_server: String,
    pub command_config: Option<String>,
    pub action: ConsumerGroupAction,
}

/// What to do with consumer groups.
#[derive(Debug)]
pub enum ConsumerGroupAction {
    List,
    Describe { group: Vec<String> },
    Delete { group: Vec<String> },
    /// Reset a group's offsets on a topic; a dry run unless `execute` is set.
    ResetOffsets {
        group: String,
        topic: String,
        to_earliest: bool,
        to_latest: bool,
        to_offset: Option<i64>,
        to_datetime: Option<i64>,
        partitions: Option<Vec<i32>>,
        execute: bool,
    },
}

/// Arguments of the configuration commands.
#[derive(Debug)]
pub struct ConfigsArgs {
    pub bootstrap_server: String,
    pub command_config: Option<String>,
    pub action: ConfigAction,
}

/// What to do with configurations.
#[derive(Debug)]
pub enum ConfigAction {
    Describe { entity_type: String, entity_name: String },
    Alter {
        entity_type: String,
        entity_name: String,
        add_config: Vec<String>,
        delete_config: Vec<String>,
    },
}

} // verus!
