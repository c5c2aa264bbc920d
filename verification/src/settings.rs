//! What a turn runs on, once the document and the flags have both been read.
//!
//! A key still on its compiled layer is a key nobody has an opinion about, and
//! a command's own default stands. Anything above it is somebody's opinion,
//! and outranks the default a build happens to compile in.
use vstd::prelude::*;
use vstd::string::*;

use crate::json;
use crate::render::fault;
use crate::rpc;
use crate::rpc::{ErrorCode, RpcError};
use crate::text;
use crate::text::same;

verus! {

broadcast use crate::text::group_views;

/// The settings key a provider flag overrides.
pub const PROVIDER: &'static str = "provider.default";

/// A provider this build can reach.
#[derive(Clone, Copy, PartialEq, Eq, Structural, Debug)]
pub enum AdapterChoice {
    /// Deterministic built-in adapter. No key, no network.
    Mock,
    /// DeepSeek chat completions. Needs a credential.
    Deepseek,
}

impl AdapterChoice {
    /// The provider route this choice names.
    pub open spec fn named(self) -> Seq<char> {
        match self {
            AdapterChoice::Mock => "mock"@,
            AdapterChoice::Deepseek => "deepseek"@,
        }
    }

    /// The provider route this choice names: what a page of providers prints,
    /// and what a flag takes.
    pub fn route(self) -> (s: &'static str)
        ensures
            s@ == self.named(),
    {
        match self {
            AdapterChoice::Mock => "mock",
            AdapterChoice::Deepseek => "deepseek",
        }
    }
}

/// No two choices share a route.
pub proof fn lemma_routes_differ()
    ensures
        AdapterChoice::Mock.named() != AdapterChoice::Deepseek.named(),
{
    reveal_strlit("mock");
    reveal_strlit("deepseek");
    assert("mock"@.len() != "deepseek"@.len());
}

// ---- reports ----

/// What a failure puts on the screen, and the status it exits with.
#[derive(Clone, Debug)]
pub struct Reported {
    pub message: String,
    pub note: Option<String>,
    pub status: u8,
}

/// What a failure puts on the screen, by what it says.
pub struct Told {
    pub message: Seq<char>,
    pub note: Option<Seq<char>>,
    pub status: u8,
}

impl View for Reported {
    type V = Told;

    open spec fn view(&self) -> Told {
        Told { message: self.message@, note: json::held(self.note), status: self.status }
    }
}

/// A failure that carries a protocol code, worded and given its status.
pub open spec fn failed(error: rpc::Failure) -> Told {
    let (message, note) = fault::said_of(error, fault::named(error));
    Told { message, note, status: fault::status_of(error) }
}

/// A failure that carries a protocol code, worded and given its status.
pub fn fail(error: &RpcError) -> (r: Reported)
    ensures
        r@ == failed(error@),
{
    let (message, note) = fault::said(error);
    Reported { message, note, status: fault::status(error) }
}

/// A failure with no protocol code behind it: this build's own.
pub open spec fn plain(message: Seq<char>) -> Told {
    Told { message, note: None, status: ErrorCode::Internal.status() }
}

/// A failure with no protocol code behind it: this build's own.
pub fn report(message: &str) -> (r: Reported)
    ensures
        r@ == plain(message@),
{
    Reported {
        message: message.to_owned(),
        note: None,
        status: ErrorCode::Internal.exit_status(),
    }
}

/// A settings document the harness cannot run on. The file is where the value
/// was written and where it has to be fixed, so the note names it, unless the
/// sentence above has named it already. `tamed` is that sentence as a terminal
/// draws it.
pub open spec fn misconfiguration(
    document: Seq<char>,
    tamed: Seq<char>,
    error: rpc::Failure,
) -> Told {
    Told {
        message: tamed,
        note: if text::holds(tamed, document) {
            None
        } else {
            Some(document + " is the document that sets it"@)
        },
        status: fault::status_of(error),
    }
}

/// A settings document the harness cannot run on. `tamed` is what
/// [`fault::said`] says of the failure, as a terminal draws it: the sentence
/// the reader sees is the one that has to name the document.
pub fn misconfigured(document: &str, tamed: &str, error: &RpcError) -> (r: Reported)
    ensures
        r@ == misconfiguration(document@, tamed@, error@),
{
    let note = if text::contains(tamed, document) {
        None
    } else {
        Some(text::cat(document, " is the document that sets it"))
    };
    Reported { message: tamed.to_owned(), note, status: fault::status(error) }
}

/// Whether a refused value was put there by a flag.
pub open spec fn blames(flags: Seq<Seq<char>>, error: rpc::Failure) -> bool {
    match error.names("field"@) {
        Some(key) => flags.contains(key),
        None => false,
    }
}

/// A refused boot. Whoever set the value is who the report is for: a value the
/// flags put there is a flag to retype, and everything else came off the
/// document, and is fixed by editing it. `tamed` is as [`misconfigured`] has
/// it.
pub fn refused_boot(document: &str, flags: &Vec<String>, tamed: &str, error: &RpcError) -> (r:
    Reported)
    ensures
        r@ == if blames(text::views(flags@), error@) {
            failed(error@)
        } else {
            misconfiguration(document@, tamed@, error@)
        },
{
    if let Some(key) = error.field("field") {
        let ghost all = text::views(flags@);
        let mut i: usize = 0;
        while i < flags.len()
            invariant
                i <= flags.len(),
                all == text::views(flags@),
                error@.names("field"@) == Some(key@),
                forall|j: int| 0 <= j < i ==> #[trigger] all[j] != key@,
            decreases flags.len() - i,
        {
            if same(flags[i].as_str(), key.as_str()) {
                proof {
                    assert(all[i as int] == key@);
                }
                return fail(error);
            }
            i = i + 1;
        }
    }
    misconfigured(document, tamed, error)
}

// ---- flags ----

/// A settings key a flag can override.
#[derive(Clone, Copy, PartialEq, Eq, Structural, Debug)]
pub enum SettingKey {
    Provider,
    Model,
    MaxSteps,
    SessionsRoot,
}

/// A key the user set on the command line, and what they set it to.
#[derive(Clone, Debug)]
pub struct Override {
    pub key: SettingKey,
    pub value: Setting,
}

/// A value a flag sets.
#[derive(Clone, Debug)]
pub enum Setting {
    Text(String),
    Number(u32),
}

/// A value a flag sets, by what it says.
pub enum Given {
    Text(Seq<char>),
    Number(u32),
}

impl View for Setting {
    type V = Given;

    open spec fn view(&self) -> Given {
        match self {
            Setting::Text(text) => Given::Text(text@),
            Setting::Number(n) => Given::Number(*n),
        }
    }
}

/// What a list of overrides says.
pub open spec fn overrides_of(overrides: Seq<Override>) -> Seq<(SettingKey, Given)> {
    overrides.map_values(|o: Override| (o.key, o.value@))
}

/// A sessions directory as the one key it overrides, or nothing where none was
/// given. Nothing is the point: it is what leaves the document able to win.
pub fn root(dir: Option<String>) -> (r: Vec<Override>)
    ensures
        overrides_of(r@) == (match dir {
            Some(dir) => seq![(SettingKey::SessionsRoot, Given::Text(dir@))],
            None => Seq::empty(),
        }),
{
    let mut r: Vec<Override> = Vec::new();
    match dir {
        Some(dir) => {
            r.push(Override { key: SettingKey::SessionsRoot, value: Setting::Text(dir) });
            proof {
                assert(overrides_of(r@) =~= seq![(SettingKey::SessionsRoot, Given::Text(dir@))]);
            }
        },
        None => {
            proof {
                assert(overrides_of(r@) =~= Seq::<(SettingKey, Given)>::empty());
            }
        },
    }
    r
}

/// The flags a command that runs turns was given, before the document has been
/// read.
#[derive(Clone, Debug)]
pub struct TurnFlags {
    pub adapter: Option<AdapterChoice>,
    pub model: Option<String>,
    pub max_steps: Option<u32>,
    pub session: Option<String>,
}

/// The keys a turn's flags override, in one order. A flag nobody passed is not
/// among them.
pub open spec fn turn_overrides_of(flags: TurnFlags) -> Seq<(SettingKey, Given)> {
    let adapter = match flags.adapter {
        Some(adapter) => seq![(SettingKey::Provider, Given::Text(adapter.named()))],
        None => Seq::empty(),
    };
    let model = match flags.model {
        Some(model) => seq![(SettingKey::Model, Given::Text(model@))],
        None => Seq::empty(),
    };
    let steps = match flags.max_steps {
        Some(steps) => seq![(SettingKey::MaxSteps, Given::Number(steps))],
        None => Seq::empty(),
    };
    adapter + model + steps
}

/// The keys a turn's flags override.
pub fn turn_overrides(flags: &TurnFlags) -> (r: Vec<Override>)
    ensures
        overrides_of(r@) == turn_overrides_of(*flags),
{
    let mut r: Vec<Override> = Vec::new();
    if let Some(adapter) = flags.adapter {
        r.push(Override { key: SettingKey::Provider, value: Setting::Text(adapter.route().to_owned()) });
    }
    if let Some(model) = &flags.model {
        r.push(Override { key: SettingKey::Model, value: Setting::Text(model.clone()) });
    }
    if let Some(steps) = flags.max_steps {
        r.push(Override { key: SettingKey::MaxSteps, value: Setting::Number(steps) });
    }
    proof {
        assert(overrides_of(r@) =~= turn_overrides_of(*flags));
    }
    r
}

// ---- a turn ----

/// What the settled settings say of a turn: each value, and whether a layer
/// somebody wrote settled it.
#[derive(Clone, Debug)]
pub struct Settled {
    pub default_provider: String,
    pub provider_written: bool,
    pub default_model: String,
    pub model_written: bool,
    pub max_steps: u32,
    /// The journal's place under the sessions root, where no flag named one.
    pub journal: String,
}

/// What a turn will run on.
#[derive(Clone, Debug)]
pub struct Turn {
    pub provider: AdapterChoice,
    /// `None` leaves the model to the adapter's own catalogue.
    pub model: Option<String>,
    pub max_steps: u32,
    pub journal: String,
}

/// What a turn will run on, by what it says.
pub struct Running {
    pub provider: AdapterChoice,
    pub model: Option<Seq<char>>,
    pub max_steps: u32,
    pub journal: Seq<char>,
}

impl View for Turn {
    type V = Running;

    open spec fn view(&self) -> Running {
        Running {
            provider: self.provider,
            model: json::held(self.model),
            max_steps: self.max_steps,
            journal: self.journal@,
        }
    }
}

/// The adapter a provider name asks for.
pub open spec fn choice_of(name: Seq<char>) -> Option<AdapterChoice> {
    if name == "mock"@ {
        Some(AdapterChoice::Mock)
    } else if name == "deepseek"@ {
        Some(AdapterChoice::Deepseek)
    } else {
        None
    }
}

/// A provider name no adapter of this build answers to. It came out of a
/// document, so it is reported as any other value in one is.
pub open spec fn unknown_provider(name: Seq<char>) -> rpc::Failure {
    rpc::Failure::about(
        ErrorCode::InvalidParams,
        "must be a provider this build can reach, mock or deepseek, not "@ + text::quoted_of(name),
        "field"@,
        PROVIDER@,
    )
}

/// The adapter a provider name asks for.
pub fn provider_named(name: &str) -> (r: Result<AdapterChoice, RpcError>)
    ensures
        match choice_of(name@) {
            Some(choice) => r == Ok::<AdapterChoice, RpcError>(choice),
            None => r matches Err(error) && error@ == unknown_provider(name@),
        },
{
    if same(name, "mock") {
        return Ok(AdapterChoice::Mock);
    }
    if same(name, "deepseek") {
        return Ok(AdapterChoice::Deepseek);
    }
    let message = text::cat(
        "must be a provider this build can reach, mock or deepseek, not ",
        text::quoted(name).as_str(),
    );
    Err(RpcError::about(ErrorCode::InvalidParams, message.as_str(), "field", PROVIDER))
}

/// What a turn runs on. `fallback` is the provider the command has when nobody
/// said otherwise.
pub open spec fn turn_of(flags: TurnFlags, settled: Settled, fallback: AdapterChoice) -> Result<
    Running,
    rpc::Failure,
> {
    let provider = if settled.provider_written {
        choice_of(settled.default_provider@)
    } else {
        Some(fallback)
    };
    match provider {
        Some(provider) => Ok(
            Running {
                provider,
                model: if settled.model_written {
                    Some(settled.default_model@)
                } else {
                    None
                },
                max_steps: settled.max_steps,
                journal: match flags.session {
                    Some(session) => session@,
                    None => settled.journal@,
                },
            },
        ),
        None => Err(unknown_provider(settled.default_provider@)),
    }
}

/// Resolve one turn's settings out of what was settled and the flags.
///
/// A model nobody set is not the settled value: the engine's compiled model
/// belongs to the engine's compiled provider, and an adapter that never
/// advertised it has no such model. A failure is one of the document: a name
/// the flags hold is one this build knows.
pub fn turn_settings(flags: TurnFlags, settled: Settled, fallback: AdapterChoice) -> (r: Result<
    Turn,
    RpcError,
>)
    ensures
        (match r {
            Ok(turn) => Ok(turn@),
            Err(error) => Err(error@),
        }) == turn_of(flags, settled, fallback),
{
    let provider = if settled.provider_written {
        match provider_named(settled.default_provider.as_str()) {
            Ok(choice) => choice,
            Err(error) => {
                return Err(error);
            },
        }
    } else {
        fallback
    };
    let model = if settled.model_written {
        Some(settled.default_model)
    } else {
        None
    };
    let journal = match flags.session {
        Some(session) => session,
        None => settled.journal,
    };
    Ok(Turn { provider, model, max_steps: settled.max_steps, journal })
}

// ---- an adapter ----

/// Every provider this build registers: what it is called, the models it
/// advertises, the variable its credential is in, and whether it is there.
#[derive(Clone, Debug)]
pub struct Descriptor {
    pub provider: AdapterChoice,
    pub models: Vec<String>,
    pub credential_env: Option<String>,
    pub available: bool,
}

/// Every provider this build registers, given what the two adapters say of
/// themselves and whether the credential is set.
pub fn providers(
    mock_model: String,
    deepseek_models: Vec<String>,
    env: String,
    keyed: bool,
) -> (r: Vec<Descriptor>)
    ensures
        r@.len() == 2,
        r@[0].provider == AdapterChoice::Mock,
        text::views(r@[0].models@) == seq![mock_model@],
        r@[0].credential_env is None,
        r@[0].available,
        r@[1].provider == AdapterChoice::Deepseek,
        r@[1].models == deepseek_models,
        r@[1].credential_env == Some(env),
        r@[1].available == keyed,
{
    let mut models: Vec<String> = Vec::new();
    models.push(mock_model);
    proof {
        assert(text::views(models@) =~= seq![mock_model@]);
    }
    let mut r: Vec<Descriptor> = Vec::new();
    r.push(
        Descriptor {
            provider: AdapterChoice::Mock,
            models,
            credential_env: None,
            available: true,
        },
    );
    r.push(
        Descriptor {
            provider: AdapterChoice::Deepseek,
            models: deepseek_models,
            credential_env: Some(env),
            available: keyed,
        },
    );
    r
}

/// What one adapter advertises: the models of the first provider that is it.
pub open spec fn advertised_of(providers: Seq<Descriptor>, choice: AdapterChoice) -> Seq<Seq<char>>
    decreases providers.len(),
{
    if providers.len() == 0 {
        Seq::empty()
    } else if providers[0].provider == choice {
        text::views(providers[0].models@)
    } else {
        advertised_of(providers.skip(1), choice)
    }
}

/// The first model an adapter advertises.
pub fn default_model(providers: &Vec<Descriptor>, choice: AdapterChoice) -> (r: Option<String>)
    ensures
        json::held(r) == (if advertised_of(providers@, choice).len() == 0 {
            None
        } else {
            Some(advertised_of(providers@, choice)[0])
        }),
{
    let mut i: usize = 0;
    proof {
        assert(providers@.skip(0) =~= providers@);
    }
    while i < providers.len()
        invariant
            i <= providers.len(),
            advertised_of(providers@, choice) == advertised_of(providers@.skip(i as int), choice),
        decreases providers.len() - i,
    {
        proof {
            assert(providers@.skip(i as int).skip(1) =~= providers@.skip(i + 1));
        }
        if providers[i].provider == choice {
            if providers[i].models.len() == 0 {
                return None;
            }
            return Some(providers[i].models[0].clone());
        }
        i = i + 1;
    }
    None
}

/// A credential that is not set.
pub open spec fn missing_credential(choice: AdapterChoice, env: Seq<char>) -> rpc::Failure {
    rpc::Failure {
        code: rpc::Code::Known(ErrorCode::MissingCredential),
        message: env + " is not set"@,
        data: json::json_with(
            json::json_with("{}"@, "provider"@, choice.named())->0,
            "env"@,
            env,
        ),
    }
}

/// A provider that advertises no models, where none was named.
pub open spec fn nothing_to_default_to() -> rpc::Failure {
    rpc::Failure::about(
        ErrorCode::InvalidParams,
        "the adapter advertises no models, so there is nothing to default to"@,
        "field"@,
        "model"@,
    )
}

/// The model a named adapter will run, or why it cannot. Everything it can
/// refuse is refused before a journal is opened.
pub open spec fn model_of(
    choice: AdapterChoice,
    model: Option<Seq<char>>,
    env: Seq<char>,
    keyed: bool,
    advertised: Seq<Seq<char>>,
) -> Result<Seq<char>, rpc::Failure> {
    if choice == AdapterChoice::Deepseek && !keyed {
        Err(missing_credential(choice, env))
    } else {
        match model {
            Some(model) => Ok(model),
            None => if advertised.len() > 0 {
                Ok(advertised[0])
            } else {
                Err(nothing_to_default_to())
            },
        }
    }
}

/// The model a named adapter will run, or why it cannot. `env` is the variable
/// its credential is in, and `keyed` whether that is set.
pub fn adapter(
    choice: AdapterChoice,
    model: Option<String>,
    env: &str,
    keyed: bool,
    providers: &Vec<Descriptor>,
) -> (r: Result<String, RpcError>)
    ensures
        (match r {
            Ok(model) => Ok(model@),
            Err(error) => Err(error@),
        }) == model_of(
            choice,
            json::held(model),
            env@,
            keyed,
            advertised_of(providers@, choice),
        ),
        r matches Err(error) ==> choice == AdapterChoice::Deepseek && !keyed ==> error@.names(
            "env"@,
        ) == Some(env@) && error@.names("provider"@) == Some(choice.named()),
{
    if choice == AdapterChoice::Deepseek && !keyed {
        proof {
            reveal_strlit("env");
            reveal_strlit("provider");
            assert("env"@.len() != "provider"@.len());
        }
        let message = text::cat(env, " is not set");
        let error = RpcError::about(
            ErrorCode::MissingCredential,
            message.as_str(),
            "provider",
            choice.route(),
        );
        return Err(error.with_text("env", env));
    }
    match model {
        Some(model) => Ok(model),
        None => match default_model(providers, choice) {
            Some(model) => Ok(model),
            None => Err(
                RpcError::about(
                    ErrorCode::InvalidParams,
                    "the adapter advertises no models, so there is nothing to default to",
                    "field",
                    "model",
                ),
            ),
        },
    }
}

// ---- places ----

/// A path as a page names it: marked where nothing is there yet.
pub open spec fn place_of(named: Seq<char>, exists: bool) -> Seq<char> {
    if exists {
        named
    } else {
        named + " (not there yet)"@
    }
}

/// A path as a page names it. `named` is the whole path as the terminal draws
/// it. A path with nothing at it is still the right answer - it is the file to
/// write - so it is named and marked rather than left out.
pub fn place(named: &str, exists: bool) -> (s: String)
    ensures
        s@ == place_of(named@, exists),
{
    if exists {
        named.to_owned()
    } else {
        text::cat(named, " (not there yet)")
    }
}

/// A settings document the user named that is not there.
pub open spec fn no_document(path: Seq<char>) -> rpc::Failure {
    rpc::Failure::about(ErrorCode::Io, "no settings document at "@ + path, "path"@, path)
}

/// Which settings document a run reads. One nobody named may be absent: a
/// first run has none. One the user named may not: reading the defaults
/// instead would run a harness they did not configure.
pub fn document(named: Option<String>, exists: bool, usual: String) -> (r: Result<String, RpcError>)
    ensures
        (match r {
            Ok(path) => Ok(path@),
            Err(error) => Err(error@),
        }) == (match named {
            None => Ok(usual@),
            Some(path) => if exists {
                Ok(path@)
            } else {
                Err(no_document(path@))
            },
        }),
{
    match named {
        None => Ok(usual),
        Some(path) => if exists {
            Ok(path)
        } else {
            Err(missing_document(path.as_str()))
        },
    }
}

/// A settings document the user named that is not there.
pub fn missing_document(path: &str) -> (e: RpcError)
    ensures
        e@ == no_document(path@),
{
    RpcError::about(
        ErrorCode::Io,
        text::cat("no settings document at ", path).as_str(),
        "path",
        path,
    )
}

/// Whether a status line is written: unless it would be a second spinner on a
/// screen that already has one. A stderr that is not a terminal cannot be one.
pub fn status_line(drawn_on_stdout: bool, stderr_is_terminal: bool) -> (r: bool)
    ensures
        r == !(drawn_on_stdout && stderr_is_terminal),
{
    !(drawn_on_stdout && stderr_is_terminal)
}

// ---- laws ----

/// The command's own default stands until somebody wrote another: a provider
/// nobody wrote is the fallback whatever is compiled in.
pub proof fn lemma_nobodys_opinion_is_the_fallback(
    flags: TurnFlags,
    settled: Settled,
    fallback: AdapterChoice,
)
    requires
        !settled.provider_written,
    ensures
        turn_of(flags, settled, fallback) matches Ok(turn) && turn.provider == fallback,
{
}

/// A flag that names a journal is never overruled.
pub proof fn lemma_a_named_journal_stands(
    flags: TurnFlags,
    settled: Settled,
    fallback: AdapterChoice,
    path: Seq<char>,
)
    requires
        flags.session matches Some(session) && session@ == path,
    ensures
        turn_of(flags, settled, fallback) matches Ok(turn) ==> turn.journal == path,
{
}

/// The mock adapter needs no credential: a run on it is never refused for one.
pub proof fn lemma_the_mock_needs_no_credential(
    model: Option<Seq<char>>,
    env: Seq<char>,
    keyed: bool,
    advertised: Seq<Seq<char>>,
)
    requires
        model is Some || advertised.len() > 0,
    ensures
        model_of(AdapterChoice::Mock, model, env, keyed, advertised) is Ok,
{
}

/// What a page of providers advertises is what a run takes by default: the
/// first model on the chosen provider's list.
pub proof fn lemma_the_default_is_the_first_advertised(
    choice: AdapterChoice,
    env: Seq<char>,
    advertised: Seq<Seq<char>>,
)
    requires
        advertised.len() > 0,
    ensures
        model_of(choice, None, env, true, advertised) == Ok::<Seq<char>, rpc::Failure>(
            advertised[0],
        ),
{
}

/// Each flag overrides its own key and no other, whichever of the others were
/// passed: the model is set to what its flag names exactly when that flag was
/// passed, and so the provider to the route of the adapter named, and the step
/// budget to the number given. No key is set twice, and no flag of a turn sets
/// the sessions root.
pub proof fn lemma_each_flag_overrides_its_own_key(flags: TurnFlags, key: SettingKey, given: Given)
    ensures
        turn_overrides_of(flags).contains((key, given)) <==> match key {
            SettingKey::Model => flags.model matches Some(model) && given == Given::Text(model@),
            SettingKey::Provider => flags.adapter matches Some(adapter) && given == Given::Text(
                adapter.named(),
            ),
            SettingKey::MaxSteps => flags.max_steps matches Some(steps) && given == Given::Number(
                steps,
            ),
            SettingKey::SessionsRoot => false,
        },
        forall|i: int, j: int|
            0 <= i < j < turn_overrides_of(flags).len() ==> (#[trigger] turn_overrides_of(
                flags,
            )[i]).0 != (#[trigger] turn_overrides_of(flags)[j]).0,
{
    let all = turn_overrides_of(flags);
    let model_at: int = if flags.adapter is Some {
        1
    } else {
        0
    };
    let steps_at: int = if flags.model is Some {
        model_at + 1
    } else {
        model_at
    };
    if flags.adapter is Some {
        assert(all[0] == (SettingKey::Provider, Given::Text(flags.adapter->0.named())));
    }
    if flags.model is Some {
        assert(all[model_at] == (SettingKey::Model, Given::Text(flags.model->0@)));
    }
    if flags.max_steps is Some {
        assert(all[steps_at] == (SettingKey::MaxSteps, Given::Number(flags.max_steps->0)));
    }
}

/// What one flag says is no matter to another: with the adapter, the model or the
/// step budget named or not, the other two keys are set as they were.
pub proof fn lemma_flags_do_not_mix(one: TurnFlags, other: TurnFlags, given: Given)
    ensures
        one.model == other.model ==> (turn_overrides_of(one).contains((SettingKey::Model, given))
            <==> turn_overrides_of(other).contains((SettingKey::Model, given))),
        one.adapter == other.adapter ==> (turn_overrides_of(one).contains(
            (SettingKey::Provider, given),
        ) <==> turn_overrides_of(other).contains((SettingKey::Provider, given))),
        one.max_steps == other.max_steps ==> (turn_overrides_of(one).contains(
            (SettingKey::MaxSteps, given),
        ) <==> turn_overrides_of(other).contains((SettingKey::MaxSteps, given))),
{
    lemma_each_flag_overrides_its_own_key(one, SettingKey::Model, given);
    lemma_each_flag_overrides_its_own_key(other, SettingKey::Model, given);
    lemma_each_flag_overrides_its_own_key(one, SettingKey::Provider, given);
    lemma_each_flag_overrides_its_own_key(other, SettingKey::Provider, given);
    lemma_each_flag_overrides_its_own_key(one, SettingKey::MaxSteps, given);
    lemma_each_flag_overrides_its_own_key(other, SettingKey::MaxSteps, given);
}

/// A provider is known by the name its route has and by no other.
pub proof fn lemma_a_route_names_its_adapter(choice: AdapterChoice, name: Seq<char>)
    ensures
        choice_of(choice.named()) == Some(choice),
        choice_of(name) == Some(choice) ==> name == choice.named(),
        choice_of(name) is None <==> name != AdapterChoice::Mock.named() && name
            != AdapterChoice::Deepseek.named(),
        AdapterChoice::Mock.named() == "mock"@,
        AdapterChoice::Deepseek.named() == "deepseek"@,
{
    lemma_routes_differ();
}

/// A turn runs on what was settled, each setting for itself: the provider that
/// was written or else the fallback, the model that was written or else none, the
/// step budget as it stands, and the journal a flag named or else the usual one.
/// Only a provider that was written and that this build cannot reach is refused,
/// and the refusal is a wrong parameter of that key that names what was written.
pub proof fn lemma_a_turn_runs_on_what_was_settled(
    flags: TurnFlags,
    settled: Settled,
    fallback: AdapterChoice,
)
    ensures
        turn_of(flags, settled, fallback) is Err <==> settled.provider_written
            && settled.default_provider@ != "mock"@ && settled.default_provider@ != "deepseek"@,
        turn_of(flags, settled, fallback) matches Ok(turn) ==> {
            &&& settled.provider_written ==> turn.provider.named() == settled.default_provider@
            &&& !settled.provider_written ==> turn.provider == fallback
            &&& settled.model_written ==> turn.model == Some(settled.default_model@)
            &&& !settled.model_written ==> turn.model is None
            &&& turn.max_steps == settled.max_steps
            &&& flags.session is None ==> turn.journal == settled.journal@
            &&& flags.session matches Some(session) ==> turn.journal == session@
        },
        turn_of(flags, settled, fallback) matches Err(error) ==> {
            &&& error.code == rpc::Code::Known(ErrorCode::InvalidParams)
            &&& error.message == "must be a provider this build can reach, mock or deepseek, not "@
                + text::quoted_of(settled.default_provider@)
            &&& error.data == json::json_with("{}"@, "field"@, "provider.default"@)
        },
{
}

/// A provider without a credential is refused whatever model was named, and the
/// refusal names the variable to set and the provider it is for. With one, a
/// model that was named is the model, whatever the provider advertises.
pub proof fn lemma_a_named_model_stands(
    choice: AdapterChoice,
    model: Option<Seq<char>>,
    env: Seq<char>,
    keyed: bool,
    advertised: Seq<Seq<char>>,
)
    ensures
        choice == AdapterChoice::Deepseek && !keyed ==> (model_of(
            choice,
            model,
            env,
            keyed,
            advertised,
        ) matches Err(error) && error.code == rpc::Code::Known(ErrorCode::MissingCredential)
            && error.message == env + " is not set"@),
        choice == AdapterChoice::Mock || keyed ==> match model {
            Some(model) => model_of(choice, Some(model), env, keyed, advertised) == Ok::<
                Seq<char>,
                rpc::Failure,
            >(model),
            None => match model_of(choice, model, env, keyed, advertised) {
                Ok(first) => advertised.len() > 0 && first == advertised[0],
                Err(error) => advertised.len() == 0 && error.code == rpc::Code::Known(
                    ErrorCode::InvalidParams,
                ),
            },
        },
{
}

/// What a provider advertises is what the first entry for it lists: entries of
/// the other provider before it change nothing, and none after it does.
pub proof fn lemma_the_first_entry_speaks_for_a_provider(
    before: Seq<Descriptor>,
    entry: Descriptor,
    behind: Seq<Descriptor>,
)
    requires
        forall|i: int| 0 <= i < before.len() ==> (#[trigger] before[i]).provider != entry.provider,
    ensures
        advertised_of(before.push(entry) + behind, entry.provider) == text::views(entry.models@),
        advertised_of(before, entry.provider).len() == 0,
    decreases before.len(),
{
    let all = before.push(entry) + behind;
    if before.len() > 0 {
        lemma_the_first_entry_speaks_for_a_provider(before.skip(1), entry, behind);
        assert(all.skip(1) =~= before.skip(1).push(entry) + behind);
        assert(all[0] == before[0]);
    } else {
        assert(all[0] == entry);
    }
}

/// A failure is told in the words and with the way out that its code and data
/// make, and ends with the status of its code. A plain report is its message,
/// with no way out, and ends as a fault of this build does.
pub proof fn lemma_a_failure_is_told_with_its_status(error: rpc::Failure, message: Seq<char>)
    ensures
        failed(error).message == fault::said_of(error, fault::named(error)).0,
        failed(error).note == fault::said_of(error, fault::named(error)).1,
        failed(error).status == fault::status_of(error),
        plain(message) == (Told { message, note: None, status: 1 }),
{
}

/// A refused setting is told in its own words. The document is named beside them
/// exactly where they do not name it themselves.
pub proof fn lemma_the_document_is_named_once(
    document: Seq<char>,
    tamed: Seq<char>,
    error: rpc::Failure,
)
    ensures
        misconfiguration(document, tamed, error).message == tamed,
        misconfiguration(document, tamed, error).status == fault::status_of(error),
        misconfiguration(document, tamed, error).note is None <==> text::holds(tamed, document),
        misconfiguration(document, tamed, error).note matches Some(note) ==> note == document
            + " is the document that sets it"@,
{
}

/// A flag is to blame exactly where the refusal names a field that one set.
pub proof fn lemma_a_flag_is_blamed_by_its_field(
    flags: Seq<Seq<char>>,
    error: rpc::Failure,
    field: Seq<char>,
)
    ensures
        error.names("field"@) is None ==> !blames(flags, error),
        error.names("field"@) == Some(field) ==> (blames(flags, error) <==> exists|i: int|
            0 <= i < flags.len() && #[trigger] flags[i] == field),
{
}

/// A place is named as it is, and one that is not there yet says so behind its
/// name. A document that is not there is told with its path, in words and in data.
pub proof fn lemma_a_missing_place_keeps_its_name(named: Seq<char>)
    ensures
        place_of(named, true) == named,
        place_of(named, false) == named + " (not there yet)"@,
        no_document(named).code == rpc::Code::Known(ErrorCode::Io),
        no_document(named).message == "no settings document at "@ + named,
        no_document(named).data == json::json_with("{}"@, "path"@, named),
{
}

/// Whatever the flags of a turn override, the model is overridden with what its
/// flag names exactly where that flag was passed, whichever others were; and so
/// the provider and the step budget.
pub proof fn lemma_what_flags_override(
    flags: &TurnFlags,
    overrides: Vec<Override>,
    key: SettingKey,
    given: Given,
)
    requires
        call_ensures(turn_overrides, (flags,), overrides),
    ensures
        (exists|i: int|
            0 <= i < overrides@.len() && (#[trigger] overrides@[i]).key == key
                && overrides@[i].value@ == given) <==> match key {
            SettingKey::Model => flags.model matches Some(model) && given == Given::Text(model@),
            SettingKey::Provider => flags.adapter matches Some(adapter) && given == Given::Text(
                match adapter {
                    AdapterChoice::Mock => "mock"@,
                    AdapterChoice::Deepseek => "deepseek"@,
                },
            ),
            SettingKey::MaxSteps => flags.max_steps matches Some(steps) && given == Given::Number(
                steps,
            ),
            SettingKey::SessionsRoot => false,
        },
{
    lemma_each_flag_overrides_its_own_key(*flags, key, given);
    let all = overrides_of(overrides@);
    if exists|i: int|
        0 <= i < overrides@.len() && (#[trigger] overrides@[i]).key == key && overrides@[i].value@
            == given {
        let i = choose|i: int|
            0 <= i < overrides@.len() && (#[trigger] overrides@[i]).key == key
                && overrides@[i].value@ == given;
        assert(all[i] == (key, given));
    }
    if all.contains((key, given)) {
        let i = all.index_of((key, given));
        assert(overrides@[i].key == key && overrides@[i].value@ == given);
    }
}

/// Whatever a turn is settled on keeps each setting for itself.
pub proof fn lemma_what_a_turn_is_settled_on(
    flags: TurnFlags,
    settled: Settled,
    fallback: AdapterChoice,
    r: Result<Turn, RpcError>,
)
    requires
        call_ensures(turn_settings, (flags, settled, fallback), r),
    ensures
        r is Err <==> settled.provider_written && settled.default_provider@ != "mock"@
            && settled.default_provider@ != "deepseek"@,
        r matches Ok(turn) ==> {
            &&& settled.provider_written ==> turn.provider.named() == settled.default_provider@
            &&& !settled.provider_written ==> turn.provider == fallback
            &&& settled.model_written ==> (turn.model matches Some(model) && model@
                == settled.default_model@)
            &&& !settled.model_written ==> turn.model is None
            &&& turn.max_steps == settled.max_steps
            &&& turn.journal@ == match flags.session {
                Some(session) => session@,
                None => settled.journal@,
            }
        },
{
    lemma_a_turn_runs_on_what_was_settled(flags, settled, fallback);
}

/// Whatever directory is given for the sessions overrides their root and nothing
/// else, and none overrides nothing.
pub proof fn lemma_a_directory_overrides_the_root(dir: Option<String>, overrides: Vec<Override>)
    requires
        call_ensures(root, (dir,), overrides),
    ensures
        dir is None ==> overrides@.len() == 0,
        dir matches Some(dir) ==> overrides@.len() == 1 && overrides@[0].key
            == SettingKey::SessionsRoot && overrides@[0].value@ == Given::Text(dir@),
{
    let all = overrides_of(overrides@);
    assert(all.len() == overrides@.len());
    if dir is Some {
        assert(all[0] == (overrides@[0].key, overrides@[0].value@));
    }
}

/// Whatever document is settled on is the one that was named, where it is there,
/// and the usual one where none was; one that was named and is not there is
/// refused by its path.
pub proof fn lemma_a_named_document_has_to_be_there(
    named: Option<String>,
    exists: bool,
    usual: String,
    r: Result<String, RpcError>,
)
    requires
        call_ensures(document, (named, exists, usual), r),
    ensures
        named is None ==> (r matches Ok(path) && path@ == usual@),
        named matches Some(named) ==> exists ==> (r matches Ok(path) && path@ == named@),
        named matches Some(named) ==> !exists ==> (r matches Err(error) && error@.kind() == Some(
            ErrorCode::Io,
        ) && error@.message == "no settings document at "@ + named@),
{
}

/// Whatever catalogue there is has the two adapters: the offline one with its one
/// model and always there, and the other with its models, its variable, and there
/// exactly where it has a credential.
pub proof fn lemma_the_catalogue_has_both_adapters(
    mock_model: String,
    deepseek_models: Vec<String>,
    env: String,
    keyed: bool,
    r: Vec<Descriptor>,
)
    requires
        call_ensures(providers, (mock_model, deepseek_models, env, keyed), r),
    ensures
        r@.len() == 2,
        advertised_of(r@, AdapterChoice::Mock) == seq![mock_model@],
        advertised_of(r@, AdapterChoice::Deepseek) == text::views(deepseek_models@),
        forall|i: int|
            0 <= i < 2 ==> match (#[trigger] r@[i]).provider {
                AdapterChoice::Mock => r@[i].available && r@[i].credential_env is None,
                AdapterChoice::Deepseek => r@[i].available == keyed && r@[i].credential_env
                    == Some(env),
            },
{
    reveal_with_fuel(advertised_of, 3);
    assert(r@.skip(1)[0] == r@[1]);
}

/// Whatever model is defaulted to is the first that the provider advertises.
pub proof fn lemma_a_default_is_the_first_advertised(
    providers: &Vec<Descriptor>,
    choice: AdapterChoice,
    r: Option<String>,
)
    requires
        call_ensures(default_model, (providers, choice), r),
    ensures
        r is None <==> advertised_of(providers@, choice).len() == 0,
        r matches Some(model) ==> model@ == advertised_of(providers@, choice)[0],
{
}

/// Whatever is said of a status line, it is left out exactly where the turn is
/// drawn on the same terminal.
pub proof fn lemma_a_drawn_turn_has_no_status_line(drawn: bool, terminal: bool, r: bool)
    requires
        call_ensures(status_line, (drawn, terminal), r),
    ensures
        !r <==> drawn && terminal,
{
}

/// Whatever a name is read as, a route reads as its adapter and anything else is
/// refused.
pub proof fn lemma_a_name_reads_as_its_adapter(name: &str, r: Result<AdapterChoice, RpcError>)
    requires
        call_ensures(provider_named, (name,), r),
    ensures
        name@ == "mock"@ ==> r matches Ok(AdapterChoice::Mock),
        name@ == "deepseek"@ ==> r matches Ok(AdapterChoice::Deepseek),
        name@ != "mock"@ && name@ != "deepseek"@ ==> (r matches Err(error) && error@.kind() == Some(
            ErrorCode::InvalidParams,
        )),
{
    lemma_routes_differ();
}

/// Whatever is reported of settings that were refused is the failure where a flag
/// set the field at fault, and the document's where none did.
pub proof fn lemma_a_refused_setting_is_told_for_who_set_it(
    document: &str,
    flags: &Vec<String>,
    tamed: &str,
    error: &RpcError,
    told: Reported,
    i: int,
)
    requires
        call_ensures(refused_boot, (document, flags, tamed, error), told),
    ensures
        0 <= i < flags@.len() && error@.names("field"@) == Some(flags@[i]@) ==> told@ == failed(
            error@,
        ),
        error@.names("field"@) is None ==> told.message@ == tamed@,
{
    if 0 <= i < flags@.len() {
        assert(text::views(flags@)[i] == flags@[i]@);
    }
}

} // verus!
