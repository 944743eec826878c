//! Session settings: which provider and model to use, and where to reach it.
use vstd::prelude::*;
use crate::text::{chars_of, first_index, index_from, lemma_first_index, slice_chars, str_equals, string_of};
use crate::Error;

verus! {

pub const DEFAULT_MODEL: &'static str = "ollama/qwen2.5-coder";

pub const DEFAULT_HOSTNAME: &'static str = "localhost";

pub const DEFAULT_PORT: u16 = 11434;

/// The message given for a model not written `provider/model`.
pub const MODEL_FORMAT_ERROR: &'static str = "Model must be in format provider/model";

/// The start of the message given for a provider that is not supported.
pub const UNSUPPORTED_PROVIDER: &'static str = "Unsupported provider: ";

/// The settings of a session.
pub struct Config {
    /// The model, written `provider/model`.
    pub model: String,
    /// The host of the local server, for providers that use one.
    pub hostname: String,
    /// The port of the local server, for providers that use one.
    pub port: u16,
}

impl Default for Config {
    fn default() -> (r: Self)
        ensures
            r.model@ == DEFAULT_MODEL@,
            r.hostname@ == DEFAULT_HOSTNAME@,
            r.port == DEFAULT_PORT,
    {
        Config {
            model: String::from_str(DEFAULT_MODEL),
            hostname: String::from_str(DEFAULT_HOSTNAME),
            port: DEFAULT_PORT,
        }
    }
}

/// The client a session should use, as settings for the caller to build it from.
pub enum LlmTarget {
    Ollama { host: String, port: u16, model: String },
    OpenAi { model: String },
}

/// `provider/model` split at its only slash; `None` unless there is exactly one.
pub open spec fn model_parts(m: Seq<char>) -> Option<(Seq<char>, Seq<char>)> {
    match first_index(m, '/') {
        Some(i) => if first_index(m.skip(i + 1), '/') is None {
            Some((m.take(i), m.skip(i + 1)))
        } else {
            None
        },
        None => None,
    }
}

impl Config {
    pub fn new(model: String, hostname: String, port: u16) -> (r: Self)
        ensures
            r.model@ == model@,
            r.hostname@ == hostname@,
            r.port == port,
    {
        Config { model, hostname, port }
    }

    /// Picks the client from the model setting: `ollama/<m>` is the local
    /// server at this host and port, `openai/<m>` the hosted service; any
    /// other provider, or a model not written `provider/model`, is an error.
    pub fn create_llm_client(&self) -> (r: Result<LlmTarget, Error>)
        ensures
            match model_parts(self.model@) {
                None => r matches Err(Error::Llm(e)) && e@ == MODEL_FORMAT_ERROR@,
                Some((p, m)) => if p == "ollama"@ {
                    r matches Ok(LlmTarget::Ollama { host, port, model }) && host@
                        == self.hostname@ && port == self.port && model@ == m
                } else if p == "openai"@ {
                    r matches Ok(LlmTarget::OpenAi { model }) && model@ == m
                } else {
                    r matches Err(Error::Llm(e)) && e@ == UNSUPPORTED_PROVIDER@ + p
                },
            },
    {
        let v = chars_of(self.model.as_str());
        proof {
            lemma_first_index(v@, '/');
        }
        assert(v@.skip(0) =~= v@);
        let slash = match index_from(&v, 0, '/') {
            Some(i) => i,
            None => return Err(Error::Llm(String::from_str(MODEL_FORMAT_ERROR))),
        };
        if index_from(&v, slash + 1, '/').is_some() {
            return Err(Error::Llm(String::from_str(MODEL_FORMAT_ERROR)));
        }
        let provider = string_of(&slice_chars(&v, 0, slash));
        let model = string_of(&slice_chars(&v, slash + 1, v.len()));
        assert(v@.take(slash as int) =~= v@.subrange(0, slash as int));
        assert(v@.skip(slash + 1) =~= v@.subrange(slash + 1, v.len() as int));
        if str_equals(provider.as_str(), "ollama") {
            Ok(LlmTarget::Ollama { host: self.hostname.clone(), port: self.port, model })
        } else if str_equals(provider.as_str(), "openai") {
            Ok(LlmTarget::OpenAi { model })
        } else {
            Err(Error::Llm(String::from_str(UNSUPPORTED_PROVIDER).concat(provider.as_str())))
        }
    }
}

} // verus!
