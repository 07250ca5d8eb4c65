//! What is sent to the analytics service: its configuration, and events
//! with their properties.
//!
//! The values of properties are JSON values of the `serde_json` crate.
//! They are carried through as they are; nothing here looks into them.

use vstd::prelude::*;
use crate::text::same_text;

verus! {

/// The address to which events are sent unless another is configured.
pub const API_ENDPOINT: &'static str = "https://app.posthog.com/capture/";

/// A JSON value of the `serde_json` crate.  Nothing is known of what it
/// holds.
#[verifier::external_type_specification]
#[verifier::external_body]
pub struct ExValue(serde_json::Value);

/// The error with which the `serde_json` crate refuses to turn something
/// into a JSON value.
#[verifier::external_type_specification]
#[verifier::external_body]
pub struct ExError(serde_json::Error);

/// What a configuration holds.
pub struct ConfigParts {
    pub api_endpoint: Seq<char>,
    pub api_key: Seq<char>,
}

/// The configuration for the key `api_key` and the usual address.
pub open spec fn config_for(api_key: Seq<char>) -> ConfigParts {
    ConfigParts { api_endpoint: API_ENDPOINT@, api_key }
}

/// Where events are sent, and the key that is sent with them.
pub struct ClientConfig {
    api_endpoint: String,
    api_key: String,
}

impl View for ClientConfig {
    type V = ConfigParts;

    closed spec fn view(&self) -> ConfigParts {
        ConfigParts { api_endpoint: self.api_endpoint@, api_key: self.api_key@ }
    }
}

impl ClientConfig {
    /// The address to which events are sent.
    pub fn api_endpoint(&self) -> (endpoint: &str)
        ensures
            endpoint@ == self@.api_endpoint,
    {
        self.api_endpoint.as_str()
    }

    /// The key that is sent with every event.
    pub fn api_key(&self) -> (key: &str)
        ensures
            key@ == self@.api_key,
    {
        self.api_key.as_str()
    }
}

impl vstd::std_specs::convert::FromSpecImpl<&str> for ClientConfig {
    /// What `from` returns is stated by its own contract, over views.
    open spec fn obeys_from_spec() -> bool {
        false
    }

    open spec fn from_spec(api_key: &str) -> Self {
        choose|config: ClientConfig| config@ == config_for(api_key@)
    }
}

impl From<&str> for ClientConfig {
    /// The configuration for the key `api_key` and the usual address.
    fn from(api_key: &str) -> (config: Self)
        ensures
            config@ == config_for(api_key@),
    {
        ClientConfig { api_endpoint: API_ENDPOINT.to_owned(), api_key: api_key.to_owned() }
    }
}

impl vstd::std_specs::convert::FromSpecImpl<String> for ClientConfig {
    /// What `from` returns is stated by its own contract, over views.
    open spec fn obeys_from_spec() -> bool {
        false
    }

    open spec fn from_spec(api_key: String) -> Self {
        choose|config: ClientConfig| config@ == config_for(api_key@)
    }
}

impl From<String> for ClientConfig {
    /// The configuration for the key `api_key` and the usual address.
    fn from(api_key: String) -> (config: Self)
        ensures
            config@ == config_for(api_key@),
    {
        ClientConfig { api_endpoint: API_ENDPOINT.to_owned(), api_key }
    }
}

/// The sender of events: it holds the configuration under which they are
/// sent.
pub struct Client {
    config: ClientConfig,
}

impl View for Client {
    type V = ConfigParts;

    closed spec fn view(&self) -> ConfigParts {
        self.config@
    }
}

impl Client {
    /// A sender with the configuration `config`.
    pub fn new(config: ClientConfig) -> (client: Client)
        ensures
            client@ == config@,
    {
        Client { config }
    }

    /// The configuration under which events are sent.
    pub fn config(&self) -> (config: &ClientConfig)
        ensures
            config@ == self@,
    {
        &self.config
    }
}

/// The properties that `entries` give: of two entries with the same key,
/// the later one counts.
pub open spec fn entries_map(entries: Seq<(String, serde_json::Value)>) -> Map<
    Seq<char>,
    serde_json::Value,
>
    decreases entries.len(),
{
    if entries.len() == 0 {
        Map::empty()
    } else {
        entries_map(entries.drop_last()).insert(entries.last().0@, entries.last().1)
    }
}

/// What the properties of an event hold.
pub struct PropertiesParts {
    /// Who the event is about.
    pub distinct_id: Seq<char>,
    /// The other properties, by their key.
    pub props: Map<Seq<char>, serde_json::Value>,
}

/// The properties of an event.
#[derive(Debug)]
pub struct Properties {
    distinct_id: String,
    entries: Vec<(String, serde_json::Value)>,
}

impl View for Properties {
    type V = PropertiesParts;

    closed spec fn view(&self) -> PropertiesParts {
        PropertiesParts { distinct_id: self.distinct_id@, props: entries_map(self.entries@) }
    }
}

impl Properties {
    /// The properties of an event about `distinct_id`, with nothing else
    /// set.
    pub fn new(distinct_id: &str) -> (properties: Properties)
        ensures
            properties@ == (PropertiesParts { distinct_id: distinct_id@, props: Map::empty() }),
    {
        Properties { distinct_id: distinct_id.to_owned(), entries: Vec::new() }
    }

    /// Who the event is about.
    pub fn distinct_id(&self) -> (id: &str)
        ensures
            id@ == self@.distinct_id,
    {
        self.distinct_id.as_str()
    }

    /// Sets the property `key` to `value`.  An earlier value of that
    /// property is replaced.
    pub fn insert(&mut self, key: &str, value: serde_json::Value)
        ensures
            final(self)@ == (PropertiesParts {
                distinct_id: old(self)@.distinct_id,
                props: old(self)@.props.insert(key@, value),
            }),
    {
        let ghost before = self.entries@;
        self.entries.push((key.to_owned(), value));
        assert(self.entries@.drop_last() == before);
    }

    /// The value of the property `key`, if it is set.
    pub fn get(&self, key: &str) -> (value: Option<&serde_json::Value>)
        ensures
            match value {
                Some(v) => self@.props.dom().contains(key@) && self@.props[key@] == *v,
                None => !self@.props.dom().contains(key@),
            },
    {
        let mut i: usize = self.entries.len();
        assert(self.entries@.take(i as int) == self.entries@);
        while i > 0
            invariant
                i <= self.entries@.len(),
                entries_map(self.entries@).dom().contains(key@) == entries_map(
                    self.entries@.take(i as int),
                ).dom().contains(key@),
                entries_map(self.entries@).dom().contains(key@) ==> entries_map(self.entries@)[key@]
                    == entries_map(self.entries@.take(i as int))[key@],
            decreases i,
        {
            i -= 1;
            assert(self.entries@.take(i + 1).drop_last() == self.entries@.take(i as int));
            assert(self.entries@.take(i + 1).last() == self.entries@[i as int]);
            if same_text(self.entries[i].0.as_str(), key) {
                return Some(&self.entries[i].1);
            }
        }
        None
    }

    /// The number of settings made, counting those that were replaced
    /// later.
    pub fn len(&self) -> (len: usize)
        ensures
            len == self.spec_len(),
    {
        self.entries.len()
    }

    /// The number of settings made, counting those that were replaced
    /// later.
    pub closed spec fn spec_len(&self) -> nat {
        self.entries@.len()
    }

    /// The setting of index `index`: its key and its value.
    pub closed spec fn spec_entry(&self, index: int) -> (Seq<char>, serde_json::Value) {
        (self.entries@[index].0@, self.entries@[index].1)
    }

    /// The setting of index `index`: its key and its value.  Of two
    /// settings with the same key, the one with the higher index counts.
    pub fn entry(&self, index: usize) -> (entry: (&str, &serde_json::Value))
        requires
            index < self.spec_len(),
        ensures
            entry.0@ == self.spec_entry(index as int).0,
            *entry.1 == self.spec_entry(index as int).1,
    {
        (self.entries[index].0.as_str(), &self.entries[index].1)
    }
}

/// The properties `props` after the settings of `settings` from index
/// `from` on, made in their order, or the error of the first value among
/// them that was refused.
pub open spec fn after_settings(
    props: Map<Seq<char>, serde_json::Value>,
    settings: Seq<(String, Result<serde_json::Value, serde_json::Error>)>,
    from: int,
) -> Result<Map<Seq<char>, serde_json::Value>, serde_json::Error>
    decreases settings.len() - from,
{
    if from < 0 || from >= settings.len() {
        Ok(props)
    } else {
        match settings[from].1 {
            Ok(value) => after_settings(props.insert(settings[from].0@, value), settings, from + 1),
            Err(error) => Err(error),
        }
    }
}

/// What an event holds.
pub struct EventParts {
    /// The name of the event.
    pub event: Seq<char>,
    /// Its properties.
    pub properties: PropertiesParts,
}

/// An event: its name and its properties.
#[derive(Debug)]
pub struct Event {
    event: String,
    properties: Properties,
}

impl View for Event {
    type V = EventParts;

    closed spec fn view(&self) -> EventParts {
        EventParts { event: self.event@, properties: self.properties@ }
    }
}

/// Why a property was not set.
#[derive(Debug)]
pub enum PropertyError {
    /// The value could not be turned into a JSON value.
    Serialize(serde_json::Error),
}

impl Event {
    /// The event called `event` about `distinct_id`, with no other
    /// property.
    pub fn new(event: &str, distinct_id: &str) -> (created: Event)
        ensures
            created@ == (EventParts {
                event: event@,
                properties: PropertiesParts { distinct_id: distinct_id@, props: Map::empty() },
            }),
    {
        Event { event: event.to_owned(), properties: Properties::new(distinct_id) }
    }

    /// The event with its property `key` set to the value that `prop`
    /// holds.  Where `prop` holds the error with which the value was refused,
    /// that error comes back and the event is lost.
    pub fn property(self, key: &str, prop: Result<serde_json::Value, serde_json::Error>) -> (out:
        Result<Event, PropertyError>)
        ensures
            match prop {
                Ok(value) => out is Ok && out->Ok_0@ == (EventParts {
                    event: self@.event,
                    properties: PropertiesParts {
                        distinct_id: self@.properties.distinct_id,
                        props: self@.properties.props.insert(key@, value),
                    },
                }),
                Err(error) => out is Err && out->Err_0 == PropertyError::Serialize(error),
            },
    {
        match prop {
            Ok(value) => {
                let mut event = self;
                event.properties.insert(key, value);
                Ok(event)
            },
            Err(error) => Err(PropertyError::Serialize(error)),
        }
    }

    /// The event with the properties of `settings` set, one after the
    /// other.  The first setting whose value was refused ends it: its error
    /// comes back, and the event is lost.
    pub fn with_properties(
        self,
        settings: Vec<(String, Result<serde_json::Value, serde_json::Error>)>,
    ) -> (out: Result<Event, PropertyError>)
        ensures
            match after_settings(self@.properties.props, settings@, 0) {
                Ok(props) => out is Ok && out->Ok_0@ == (EventParts {
                    event: self@.event,
                    properties: PropertiesParts {
                        distinct_id: self@.properties.distinct_id,
                        props,
                    },
                }),
                Err(error) => out is Err && out->Err_0 == PropertyError::Serialize(error),
            },
    {
        let mut event = self;
        let ghost all = settings@;
        let ghost start = event@.properties.props;
        for setting in it: settings
            invariant
                it.seq() == all,
                all == settings@,
                start == self@.properties.props,
                event@.event == self@.event,
                event@.properties.distinct_id == self@.properties.distinct_id,
                after_settings(start, all, 0) == after_settings(
                    event@.properties.props,
                    all,
                    it.index() as int,
                ),
        {
            let ghost before = event@.properties.props;
            assert(setting == all[it.index() as int]);
            assert(after_settings(before, all, it.index() as int) == match setting.1 {
                Ok(value) => after_settings(
                    before.insert(setting.0@, value),
                    all,
                    it.index() + 1,
                ),
                Err(error) => Err(error),
            });
            event = match event.property(setting.0.as_str(), setting.1) {
                Ok(event) => event,
                Err(error) => {
                    return Err(error);
                },
            };
        }
        Ok(event)
    }

    /// The name of the event.
    pub fn name(&self) -> (name: &str)
        ensures
            name@ == self@.event,
    {
        self.event.as_str()
    }

    /// The properties of the event.
    pub fn properties(&self) -> (properties: &Properties)
        ensures
            properties@ == self@.properties,
    {
        &self.properties
    }
}

/// What an event holds as it is sent.
pub struct InnerEventParts {
    /// The key of the sender.
    pub api_key: Seq<char>,
    /// The name of the event.
    pub event: Seq<char>,
    /// Its properties.
    pub properties: PropertiesParts,
}

/// An event as it is sent: with the key of the one who sends it.
#[derive(Debug)]
pub struct InnerEvent {
    api_key: String,
    event: String,
    properties: Properties,
}

impl View for InnerEvent {
    type V = InnerEventParts;

    closed spec fn view(&self) -> InnerEventParts {
        InnerEventParts {
            api_key: self.api_key@,
            event: self.event@,
            properties: self.properties@,
        }
    }
}

impl InnerEvent {
    /// `event`, to be sent with the key `api_key`.
    pub fn new(event: Event, api_key: String) -> (inner: InnerEvent)
        ensures
            inner@ == (InnerEventParts {
                api_key: api_key@,
                event: event@.event,
                properties: event@.properties,
            }),
    {
        InnerEvent { api_key, event: event.event, properties: event.properties }
    }

    /// The key of the sender.
    pub fn api_key(&self) -> (key: &str)
        ensures
            key@ == self@.api_key,
    {
        self.api_key.as_str()
    }

    /// The name of the event.
    pub fn event(&self) -> (name: &str)
        ensures
            name@ == self@.event,
    {
        self.event.as_str()
    }

    /// The properties of the event.
    pub fn properties(&self) -> (properties: &Properties)
        ensures
            properties@ == self@.properties,
    {
        &self.properties
    }
}

} // verus!
