//! Choosing the language model for command mode.

use crate::config::types::LlmConfig;
use crate::text::{opt_text, text_list, texts};
use vstd::prelude::*;

verus! {

/// A provider of language models.
#[derive(Debug, Clone, Copy, PartialEq, Eq, Structural)]
pub enum Provider {
    OpenAi,
    Groq,
    OpenRouter,
    Gemini,
}

/// The providers as they are offered, and the way to go without one.
pub open spec fn provider_labels() -> Seq<Seq<char>> {
    seq![
        "OpenAI         (recommended)"@,
        "Groq           (fast, free tier)"@,
        "OpenRouter     (many models, free options)"@,
        "Google Gemini  (generous free tier)"@,
        "Skip           (configure later in config.toml)"@,
    ]
}

/// The providers as they are offered, and the way to go without one.
pub fn provider_choices() -> (r: Vec<String>)
    ensures
        texts(r@) == provider_labels(),
{
    let r = text_list(
        &[
            "OpenAI         (recommended)",
            "Groq           (fast, free tier)",
            "OpenRouter     (many models, free options)",
            "Google Gemini  (generous free tier)",
            "Skip           (configure later in config.toml)",
        ],
    );
    assert(texts(r@) =~= provider_labels());
    r
}

/// The provider at an index of the list; the last entry stands for none.
pub open spec fn provider_at(selection: int) -> Option<Provider> {
    if selection == 0 {
        Some(Provider::OpenAi)
    } else if selection == 1 {
        Some(Provider::Groq)
    } else if selection == 2 {
        Some(Provider::OpenRouter)
    } else if selection == 3 {
        Some(Provider::Gemini)
    } else {
        None
    }
}

fn provider_of(selection: usize) -> (r: Option<Provider>)
    ensures
        r == provider_at(selection as int),
{
    match selection {
        0 => Some(Provider::OpenAi),
        1 => Some(Provider::Groq),
        2 => Some(Provider::OpenRouter),
        3 => Some(Provider::Gemini),
        _ => None,
    }
}

impl Provider {
    /// The name of a provider.
    pub open spec fn spec_name(self) -> Seq<char> {
        match self {
            Provider::OpenAi => "OpenAI"@,
            Provider::Groq => "Groq"@,
            Provider::OpenRouter => "OpenRouter"@,
            Provider::Gemini => "Google"@,
        }
    }

    /// The name of the provider.
    pub fn name(self) -> (r: &'static str)
        ensures
            r@ == self.spec_name(),
    {
        match self {
            Provider::OpenAi => "OpenAI",
            Provider::Groq => "Groq",
            Provider::OpenRouter => "OpenRouter",
            Provider::Gemini => "Google",
        }
    }

    /// Where a provider takes requests.
    pub open spec fn spec_url(self) -> Seq<char> {
        match self {
            Provider::OpenAi => "https://api.openai.com/v1/chat/completions"@,
            Provider::Groq => "https://api.groq.com/openai/v1/chat/completions"@,
            Provider::OpenRouter => "https://openrouter.ai/api/v1/chat/completions"@,
            Provider::Gemini => "https://generativelanguage.googleapis.com/v1beta/openai/chat/completions"@,
        }
    }

    /// Where the provider is called.
    pub fn url(self) -> (r: &'static str)
        ensures
            r@ == self.spec_url(),
    {
        match self {
            Provider::OpenAi => "https://api.openai.com/v1/chat/completions",
            Provider::Groq => "https://api.groq.com/openai/v1/chat/completions",
            Provider::OpenRouter => "https://openrouter.ai/api/v1/chat/completions",
            Provider::Gemini => "https://generativelanguage.googleapis.com/v1beta/openai/chat/completions",
        }
    }

    /// Where a key can be had.
    pub open spec fn spec_hint(self) -> Seq<char> {
        match self {
            Provider::OpenAi => "Get one at https://platform.openai.com/api-keys"@,
            Provider::Groq => "Get one free at https://console.groq.com/keys"@,
            Provider::OpenRouter => "Get one at https://openrouter.ai/settings/keys"@,
            Provider::Gemini => "Get one at https://aistudio.google.com/apikey"@,
        }
    }

    /// Where a key is to be had.
    pub fn hint(self) -> (r: &'static str)
        ensures
            r@ == self.spec_hint(),
    {
        match self {
            Provider::OpenAi => "Get one at https://platform.openai.com/api-keys",
            Provider::Groq => "Get one free at https://console.groq.com/keys",
            Provider::OpenRouter => "Get one at https://openrouter.ai/settings/keys",
            Provider::Gemini => "Get one at https://aistudio.google.com/apikey",
        }
    }

    /// The models that are offered, by the names that the provider knows.
    pub open spec fn spec_models(self) -> Seq<Seq<char>> {
        match self {
            Provider::OpenAi => seq![
                "gpt-4o-mini"@,
                "gpt-5-mini"@,
                "gpt-5.4-nano"@,
                "gpt-5.4-mini"@,
                "gpt-4o"@,
            ],
            Provider::Groq => seq![
                "qwen-qwq-32b"@,
                "deepseek-r1-distill-llama-70b"@,
                "llama-3.3-70b-versatile"@,
                "deepseek-r1-distill-qwen-32b"@,
                "qwen3-32b"@,
            ],
            Provider::OpenRouter => seq![
                "qwen/qwen3-32b:free"@,
                "deepseek/deepseek-r1-0528:free"@,
                "google/gemini-2.5-flash-preview:free"@,
                "openai/gpt-4o-mini"@,
            ],
            Provider::Gemini => seq![
                "gemini-2.5-flash"@,
                "gemini-3.1-flash-lite-preview"@,
                "gemini-2.5-pro"@,
                "gemini-3.1-pro-preview"@,
            ],
        }
    }

    /// The models of the provider that are offered.
    pub fn models(self) -> (r: Vec<String>)
        ensures
            texts(r@) == self.spec_models(),
    {
        let r = match self {
            Provider::OpenAi => text_list(
                &[
                    "gpt-4o-mini",
                    "gpt-5-mini",
                    "gpt-5.4-nano",
                    "gpt-5.4-mini",
                    "gpt-4o",
                ],
            ),
            Provider::Groq => text_list(
                &[
                    "qwen-qwq-32b",
                    "deepseek-r1-distill-llama-70b",
                    "llama-3.3-70b-versatile",
                    "deepseek-r1-distill-qwen-32b",
                    "qwen3-32b",
                ],
            ),
            Provider::OpenRouter => text_list(
                &[
                    "qwen/qwen3-32b:free",
                    "deepseek/deepseek-r1-0528:free",
                    "google/gemini-2.5-flash-preview:free",
                    "openai/gpt-4o-mini",
                ],
            ),
            Provider::Gemini => text_list(
                &[
                    "gemini-2.5-flash",
                    "gemini-3.1-flash-lite-preview",
                    "gemini-2.5-pro",
                    "gemini-3.1-pro-preview",
                ],
            ),
        };
        assert(texts(r@) =~= self.spec_models());
        r
    }

    /// The models as they are offered.
    pub open spec fn spec_model_labels(self) -> Seq<Seq<char>> {
        match self {
            Provider::OpenAi => seq![
                "gpt-4o-mini             (cheap, great quality) <- recommended"@,
                "gpt-5-mini              (newest, smarter, costs more)"@,
                "gpt-5.4-nano            (cheapest, fastest, newest)"@,
                "gpt-5.4-mini            (newest mini, best quality)"@,
                "gpt-4o                  (powerful, costs more)"@,
            ],
            Provider::Groq => seq![
                "qwen-qwq-32b           (fast, good quality) <- recommended"@,
                "deepseek-r1-distill-70b (strong reasoning)"@,
                "llama-3.3-70b           (versatile, general purpose)"@,
                "deepseek-r1-distill-32b (fast reasoning)"@,
                "qwen3-32b               (good all-rounder)"@,
            ],
            Provider::OpenRouter => seq![
                "qwen3-32b               (free) <- recommended"@,
                "deepseek-r1             (free, strong reasoning)"@,
                "gemini-2.5-flash        (free, fast)"@,
                "gpt-4o-mini             (paid, reliable)"@,
            ],
            Provider::Gemini => seq![
                "gemini-2.5-flash        (fast, cheap) <- recommended"@,
                "gemini-3.1-flash-lite   (newest, cheapest)"@,
                "gemini-2.5-pro          (best quality, costs more)"@,
                "gemini-3.1-pro          (newest pro, preview)"@,
            ],
        }
    }

    /// The models of the provider as they are offered.
    pub fn model_labels(self) -> (r: Vec<String>)
        ensures
            texts(r@) == self.spec_model_labels(),
    {
        let r = match self {
            Provider::OpenAi => text_list(
                &[
                    "gpt-4o-mini             (cheap, great quality) <- recommended",
                    "gpt-5-mini              (newest, smarter, costs more)",
                    "gpt-5.4-nano            (cheapest, fastest, newest)",
                    "gpt-5.4-mini            (newest mini, best quality)",
                    "gpt-4o                  (powerful, costs more)",
                ],
            ),
            Provider::Groq => text_list(
                &[
                    "qwen-qwq-32b           (fast, good quality) <- recommended",
                    "deepseek-r1-distill-70b (strong reasoning)",
                    "llama-3.3-70b           (versatile, general purpose)",
                    "deepseek-r1-distill-32b (fast reasoning)",
                    "qwen3-32b               (good all-rounder)",
                ],
            ),
            Provider::OpenRouter => text_list(
                &[
                    "qwen3-32b               (free) <- recommended",
                    "deepseek-r1             (free, strong reasoning)",
                    "gemini-2.5-flash        (free, fast)",
                    "gpt-4o-mini             (paid, reliable)",
                ],
            ),
            Provider::Gemini => text_list(
                &[
                    "gemini-2.5-flash        (fast, cheap) <- recommended",
                    "gemini-3.1-flash-lite   (newest, cheapest)",
                    "gemini-2.5-pro          (best quality, costs more)",
                    "gemini-3.1-pro          (newest pro, preview)",
                ],
            ),
        };
        assert(texts(r@) =~= self.spec_model_labels());
        r
    }
}

/// What was answered so far. A field is `None` until its question was asked.
#[derive(Debug, Clone)]
pub struct LlmAnswers {
    /// Index in the list of providers.
    pub provider: Option<usize>,
    /// Index in the list of the provider's models; past the end of the list,
    /// the name is typed.
    pub model: Option<usize>,
    /// The name of the model, where it is typed.
    pub model_name: Option<String>,
    pub key: Option<String>,
}

impl LlmAnswers {
    /// Nothing answered yet.
    pub fn new() -> (r: Self)
        ensures
            r == (LlmAnswers { provider: None, model: None, model_name: None, key: None }),
    {
        LlmAnswers { provider: None, model: None, model_name: None, key: None }
    }
}

/// What to do next to choose a language model.
#[derive(Debug)]
pub enum LlmStep {
    /// Ask for a provider, with a default index.
    PickProvider(usize),
    /// Ask for one of these models.
    PickModel(Vec<String>),
    /// Ask for the name of a model, with a default.
    EnterModel(String),
    /// Ask for the key: the prompt, and the hint before it.
    EnterKey(String, String),
    /// No language model is configured.
    Skipped,
    /// The language model is configured.
    Done(LlmConfig),
}

/// A step with what it shows.
pub enum LlmAsk {
    PickProvider(int),
    PickModel(Seq<Seq<char>>),
    EnterModel(Seq<char>),
    EnterKey(Seq<char>, Seq<char>),
    Skipped,
    /// The key, the model and the address that were chosen.
    Done(Seq<char>, Seq<char>, Seq<char>),
}

impl LlmStep {
    /// What a step asks for.
    pub open spec fn ask(self) -> LlmAsk {
        match self {
            LlmStep::PickProvider(i) => LlmAsk::PickProvider(i as int),
            LlmStep::PickModel(v) => LlmAsk::PickModel(texts(v@)),
            LlmStep::EnterModel(s) => LlmAsk::EnterModel(s@),
            LlmStep::EnterKey(a, b) => LlmAsk::EnterKey(a@, b@),
            LlmStep::Skipped => LlmAsk::Skipped,
            LlmStep::Done(c) => LlmAsk::Done(c.api_key@, c.model@, c.api_url@),
        }
    }
}

/// The model that was chosen, where one was: from the list of the provider, or
/// by its name.
pub open spec fn chosen_model(p: Provider, a: LlmAnswers) -> Option<Seq<char>> {
    match a.model {
        None => None,
        Some(i) => if i < p.spec_models().len() {
            Some(p.spec_models()[i as int])
        } else {
            opt_text(a.model_name)
        },
    }
}

/// The next step to choose a language model, after the answers given so far.
pub open spec fn llm_ask(a: LlmAnswers) -> LlmAsk {
    match a.provider {
        None => LlmAsk::PickProvider(4),
        Some(i) => match provider_at(i as int) {
            None => LlmAsk::Skipped,
            Some(p) => match chosen_model(p, a) {
                None => if a.model is None {
                    LlmAsk::PickModel(
                        p.spec_model_labels().push("Other (enter model name manually)"@),
                    )
                } else {
                    LlmAsk::EnterModel(p.spec_models()[0])
                },
                Some(model) => match a.key {
                    None => LlmAsk::EnterKey(p.spec_name() + " API key"@, p.spec_hint()),
                    Some(k) => LlmAsk::Done(k@, model, p.spec_url()),
                },
            },
        },
    }
}

/// Configure the language model for command mode (optional): the next
/// question, or the finished section, given the answers so far.
pub fn configure_llm(answers: &LlmAnswers) -> (r: LlmStep)
    ensures
        r.ask() == llm_ask(*answers),
{
    let provider = match answers.provider {
        None => {
            return LlmStep::PickProvider(4);
        },
        Some(i) => match provider_of(i) {
            None => {
                return LlmStep::Skipped;
            },
            Some(p) => p,
        },
    };
    let models = provider.models();
    let model = match answers.model {
        None => {
            let mut items = provider.model_labels();
            let ghost before = texts(items@);
            items.push("Other (enter model name manually)".to_owned());
            assert(texts(items@) =~= before.push("Other (enter model name manually)"@));
            return LlmStep::PickModel(items);
        },
        Some(i) => if i < models.len() {
            assert(models@[i as int]@ == texts(models@)[i as int]);
            models[i].clone()
        } else {
            match &answers.model_name {
                None => {
                    assert(models@.len() == texts(models@).len());
                    assert(models@[0]@ == texts(models@)[0]);
                    return LlmStep::EnterModel(models[0].clone());
                },
                Some(n) => n.clone(),
            }
        },
    };
    match &answers.key {
        None => {
            let mut prompt = provider.name().to_owned();
            prompt.push_str(" API key");
            LlmStep::EnterKey(prompt, provider.hint().to_owned())
        },
        Some(k) => LlmStep::Done(
            LlmConfig { api_key: k.clone(), model, api_url: provider.url().to_owned() },
        ),
    }
}

} // verus!
