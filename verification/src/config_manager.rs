use vstd::prelude::*;

use crate::json::{json_document, json_error_of, json_is_object, json_parse, json_value_of};
use crate::text::{copy_opt_string, opt_view};

verus! {

/// Remembers the configuration file in use.
pub struct ConfigManager {
    current_config_path: Option<String>,
}

impl ConfigManager {
    /// The path of the configuration file in use, if one was set.
    pub closed spec fn path(&self) -> Option<Seq<char>> {
        opt_view(self.current_config_path)
    }

    /// No configuration file set.
    pub fn new() -> (r: ConfigManager)
        ensures
            r.path().is_none(),
    {
        ConfigManager { current_config_path: None }
    }

    /// The path of the configuration file in use, if one was set.
    pub fn get_path(&self) -> (r: Option<String>)
        ensures
            opt_view(r) == self.path(),
    {
        copy_opt_string(&self.current_config_path)
    }

    /// Sets the configuration file in use.
    pub fn set_path(&mut self, path: String)
        ensures
            final(self).path() == Some(path@),
    {
        self.current_config_path = Some(path);
    }
}

/// The message of a configuration that does not parse: `Failed to parse config JSON: `
/// and the parser's message.
pub open spec fn parse_failure(error: Seq<char>) -> Seq<char> {
    "Failed to parse config JSON: "@ + error
}

fn parse_failure_message(error: &str) -> (r: String)
    ensures
        r@ == parse_failure(error@),
{
    let mut r = "Failed to parse config JSON: ".to_owned();
    r.append(error);
    r
}

/// The configuration `content` as a JSON value, or the message of why it does not parse.
pub fn parse_config(content: &str) -> (r: Result<serde_json::Value, String>)
    ensures
        r is Ok <==> json_document(content@),
        r matches Ok(v) ==> v == json_value_of(content@),
        r matches Err(e) ==> e@ == parse_failure(json_error_of(content@)),
{
    match json_parse(content) {
        Ok(p) => Ok(p.value),
        Err(e) => Err(parse_failure_message(e.as_str())),
    }
}

/// Checks a profile's configuration `content` before it is marked complete: it must
/// be a JSON document, and an object.
pub fn check_profile(content: &str) -> (r: Result<(), String>)
    ensures
        r is Ok <==> json_document(content@) && json_is_object(content@),
        !json_document(content@) ==> (r matches Err(e) && e@ == parse_failure(json_error_of(content@))),
        json_document(content@) && !json_is_object(content@) ==> (r matches Err(e) && e@
            == "Config is not a valid JSON object"@),
{
    match json_parse(content) {
        Ok(p) => {
            if p.is_object {
                Ok(())
            } else {
                Err("Config is not a valid JSON object".to_owned())
            }
        },
        Err(e) => Err(parse_failure_message(e.as_str())),
    }
}

/// The path read back is the path last set.
pub proof fn law_config_path_read_after_write(m: &ConfigManager, path: String, read: Option<String>)
    requires
        m.path() == Some(path@),
        opt_view(read) == m.path(),
    ensures
        read matches Some(p) && p@ == path@,
{
}

} // verus!
