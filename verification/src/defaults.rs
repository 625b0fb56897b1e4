//! The system-default store mirror.
//!
//! One distinguished metadata object names the configured and effective
//! default sink and source.  Its property notifications arrive one field at
//! a time as JSON-wrapped names; each is decoded, a value that is missing or
//! fails to parse falls back to the unknown sentinel, and a field mutation
//! republishes the whole snapshot only when the value actually changed — a
//! re-delivered identical value must not cause a redundant broadcast.
//! Commands travel the other way: choosing a default encodes the name back
//! into the provider's JSON-wrapped property format.

use vstd::prelude::*;

use crate::text;

verus! {

/// The "name" string member of the JSON object the text `s` denotes, if `s`
/// parses as an object carrying one; a function of the text alone.
pub uninterp spec fn json_name_of(s: Seq<char>) -> Option<Seq<char>>;

/// The provider's JSON wrapping of a node name: the text of the one-member
/// object carrying `name`.
pub uninterp spec fn json_of_name(name: Seq<char>) -> Seq<char>;

/// Relies on serde_json::from_str, Value::get and Value::as_str: parsing the
/// text and reading the object's "name" string member depend on the text
/// alone, and yield nothing when the text is not an object with one.
#[verifier::external_body]
fn parse_name_json(s: &str) -> (r: Option<String>)
    ensures
        match r {
            Some(n) => json_name_of(s@) == Some(n@),
            None => json_name_of(s@) is None,
        },
{
    let value: serde_json::Value = serde_json::from_str(s).ok()?;
    let name = value.get("name")?.as_str()?;
    Some(name.to_string())
}

/// Relies on serde_json::Map::insert and Value::to_string: the printed text
/// of the one-member object depends on the name alone, and serde_json
/// parses its own output back to the same member — reading the "name" of
/// the printed object yields the name again.
#[verifier::external_body]
fn name_to_json(name: &str) -> (r: String)
    ensures
        r@ == json_of_name(name@),
        json_name_of(r@) == Some(name@),
{
    let mut object = serde_json::Map::new();
    object.insert("name".to_string(), serde_json::Value::String(name.to_string()));
    serde_json::Value::Object(object).to_string()
}

/// The view of an optional property value.
pub open spec fn value_view(value: Option<&str>) -> Option<Seq<char>> {
    match value {
        Some(v) => Some(v@),
        None => None,
    }
}

/// What a delivered property value resolves to: the JSON-wrapped name it
/// carries, or the unknown sentinel when it is absent or fails to parse.
pub open spec fn resolved_name(value: Option<Seq<char>>) -> Seq<char> {
    match value {
        Some(s) => match json_name_of(s) {
            Some(n) => n,
            None => "unknown"@,
        },
        None => "unknown"@,
    }
}

/// The four default-device fields, each the unknown sentinel until first
/// observed.
#[derive(Clone, Debug)]
pub struct DefaultState {
    /// Sink the user chose as default.
    pub configured_sink: String,
    /// Actual sink used as default.
    pub sink: String,
    /// Source the user chose as default.
    pub configured_source: String,
    /// Actual source used as default.
    pub source: String,
}

impl Default for DefaultState {
    /// The initial snapshot: every field unknown.
    fn default() -> (r: Self)
        ensures
            r.configured_sink@ == "unknown"@,
            r.sink@ == "unknown"@,
            r.configured_source@ == "unknown"@,
            r.source@ == "unknown"@,
    {
        DefaultState {
            configured_sink: String::from_str("unknown"),
            sink: String::from_str("unknown"),
            configured_source: String::from_str("unknown"),
            source: String::from_str("unknown"),
        }
    }
}

impl DefaultState {
    /// Applies one property notification.  A recognized key's field takes
    /// the resolved value — the JSON-wrapped name, or the unknown sentinel
    /// when the value is absent or malformed — and the report says whether
    /// the field actually changed: re-delivering an identical value yields
    /// false, so no redundant republish is triggered.  A missing or
    /// unrecognized key changes nothing.
    pub fn update(&mut self, key: Option<&str>, value: Option<&str>) -> (changed: bool)
        ensures
            match key {
                None => *final(self) == *old(self) && !changed,
                Some(k) => {
                    &&& k@ == "default.configured.audio.sink"@ ==> {
                        &&& final(self).configured_sink@ == resolved_name(value_view(value))
                        &&& final(self).sink == old(self).sink
                        &&& final(self).configured_source == old(self).configured_source
                        &&& final(self).source == old(self).source
                        &&& changed == (final(self).configured_sink@ != old(
                            self,
                        ).configured_sink@)
                    }
                    &&& k@ == "default.audio.sink"@ ==> {
                        &&& final(self).sink@ == resolved_name(value_view(value))
                        &&& final(self).configured_sink == old(self).configured_sink
                        &&& final(self).configured_source == old(self).configured_source
                        &&& final(self).source == old(self).source
                        &&& changed == (final(self).sink@ != old(self).sink@)
                    }
                    &&& k@ == "default.configured.audio.source"@ ==> {
                        &&& final(self).configured_source@ == resolved_name(value_view(value))
                        &&& final(self).configured_sink == old(self).configured_sink
                        &&& final(self).sink == old(self).sink
                        &&& final(self).source == old(self).source
                        &&& changed == (final(self).configured_source@ != old(
                            self,
                        ).configured_source@)
                    }
                    &&& k@ == "default.audio.source"@ ==> {
                        &&& final(self).source@ == resolved_name(value_view(value))
                        &&& final(self).configured_sink == old(self).configured_sink
                        &&& final(self).sink == old(self).sink
                        &&& final(self).configured_source == old(self).configured_source
                        &&& changed == (final(self).source@ != old(self).source@)
                    }
                    &&& (k@ != "default.configured.audio.sink"@ && k@ != "default.audio.sink"@
                        && k@ != "default.configured.audio.source"@ && k@
                        != "default.audio.source"@) ==> *final(self) == *old(self) && !changed
                },
            },
    {
        proof {
            reveal_strlit("default.configured.audio.sink");
            reveal_strlit("default.audio.sink");
            reveal_strlit("default.configured.audio.source");
            reveal_strlit("default.audio.source");
            assert("default.configured.audio.sink"@.len() == 29);
            assert("default.audio.sink"@.len() == 18);
            assert("default.configured.audio.source"@.len() == 31);
            assert("default.audio.source"@.len() == 20);
        }
        let k = match key {
            Some(k) => k,
            None => {
                return false;
            },
        };
        let resolved: String = match value {
            Some(s) => match parse_name_json(s) {
                Some(n) => n,
                None => String::from_str("unknown"),
            },
            None => String::from_str("unknown"),
        };
        if text::str_eq(k, "default.configured.audio.sink") {
            let changed = !text::str_eq(resolved.as_str(), self.configured_sink.as_str());
            self.configured_sink = resolved;
            changed
        } else if text::str_eq(k, "default.audio.sink") {
            let changed = !text::str_eq(resolved.as_str(), self.sink.as_str());
            self.sink = resolved;
            changed
        } else if text::str_eq(k, "default.configured.audio.source") {
            let changed = !text::str_eq(resolved.as_str(), self.configured_source.as_str());
            self.configured_source = resolved;
            changed
        } else if text::str_eq(k, "default.audio.source") {
            let changed = !text::str_eq(resolved.as_str(), self.source.as_str());
            self.source = resolved;
            changed
        } else {
            false
        }
    }

    /// An exact copy of this snapshot, for a manually triggered republish:
    /// the current state is sent again without requiring a change.
    pub fn duplicate(&self) -> (r: Self)
        ensures
            r == *self,
    {
        DefaultState {
            configured_sink: self.configured_sink.clone(),
            sink: self.sink.clone(),
            configured_source: self.configured_source.clone(),
            source: self.source.clone(),
        }
    }
}

/// Which default the user is choosing.
#[derive(Clone, Copy, Debug, PartialEq, Eq, Structural)]
pub enum DefaultTarget {
    /// The default audio output.
    Sink,
    /// The default audio input.
    Source,
}

/// A property write for the default store: the provider's key, the type tag
/// of the value, and the JSON-wrapped name, or nothing to clear the choice.
pub struct MetadataCommand {
    /// The provider's property key.
    pub key: String,
    /// The provider's type tag for JSON string values.
    pub kind: String,
    /// The JSON-wrapped name, absent to clear the configured default.
    pub value: Option<String>,
}

/// Encodes the command that configures a default device: the target's
/// property key, the JSON type tag, and the JSON-wrapped name.
pub fn encode_default_command(target: DefaultTarget, name: Option<&str>) -> (cmd: MetadataCommand)
    ensures
        cmd.key@ == (match target {
            DefaultTarget::Sink => "default.configured.audio.sink"@,
            DefaultTarget::Source => "default.configured.audio.source"@,
        }),
        cmd.kind@ == "Spa:String:JSON"@,
        match (name, cmd.value) {
            (Some(n), Some(v)) => v@ == json_of_name(n@),
            (None, None) => true,
            _ => false,
        },
{
    let key = match target {
        DefaultTarget::Sink => String::from_str("default.configured.audio.sink"),
        DefaultTarget::Source => String::from_str("default.configured.audio.source"),
    };
    let value = match name {
        Some(n) => Some(name_to_json(n)),
        None => None,
    };
    MetadataCommand { key, kind: String::from_str("Spa:String:JSON"), value }
}

/// Which metadata object currently acts as the default store, if any.  The
/// store is attached when the provider announces it and detached when that
/// same object leaves the graph.
pub struct MetadataBinding {
    /// The provider id of the attached metadata object.
    pub attached: Option<u32>,
}

impl MetadataBinding {
    /// No store attached yet.
    pub fn new() -> (r: Self)
        ensures
            r.attached is None,
    {
        MetadataBinding { attached: None }
    }

    /// Attaches the announced default store, superseding any earlier one.
    pub fn attach(&mut self, id: u32)
        ensures
            final(self).attached == Some(id),
    {
        self.attached = Some(id);
    }

    /// Detaches the store if the departing object is the attached one;
    /// another object's departure changes nothing.
    pub fn detach(&mut self, id: u32) -> (detached: bool)
        ensures
            old(self).attached == Some(id) ==> final(self).attached is None && detached,
            old(self).attached != Some(id) ==> *final(self) == *old(self) && !detached,
    {
        match self.attached {
            Some(ours) => {
                if ours == id {
                    self.attached = None;
                    true
                } else {
                    false
                }
            },
            None => false,
        }
    }

    /// Whether a property write can be delivered: only an attached store
    /// takes commands.
    pub fn can_send(&self) -> (r: bool)
        ensures
            r == (self.attached is Some),
    {
        self.attached.is_some()
    }
}

} // verus!
