//! What the service tells of itself, and what it does with a request.
use crate::adapter::{NativeAdapterAsr, NativeAdapterConfig};
#[allow(unused_imports)]
use crate::asr::AsrErrorView;
use crate::asr::{AsrError, AsrOptions};
#[allow(unused_imports)]
use crate::cli::args::Choice;
use crate::cli::args::{AsrBackend, Cli};
use crate::cli::profile;
use crate::cli::profile::InstalledProvider;
#[allow(unused_imports)]
use crate::cli::profile::InstalledView;
use crate::cli::provider;
#[allow(unused_imports)]
use crate::cli::provider::EffectiveView;
use crate::cli::provider::Surroundings;
use crate::cli::report;
use crate::cli::serve;
#[allow(unused_imports)]
use crate::cli::serve::ApiErrorView;
use crate::cli::serve::{ServeApiError, ServeTranscriptionRequest};
use crate::openai::{OpenAiCompatibleAsr, OpenAiCompatibleConfig};
use crate::text;
use vstd::prelude::*;
use vstd::string::*;

verus! {

#[derive(Debug, Clone, PartialEq, Eq)]
pub struct ServeHealth {
    pub status: &'static str,
    pub version: String,
    pub backend: Option<String>,
    pub provider: Option<String>,
    pub model: String,
    pub local_config_ok: bool,
    pub local_config_error: Option<String>,
}

/// The service is well where the provider that it uses is set up.
pub fn serve_health_report(cli: &Cli, w: &Surroundings, version: &str) -> (r: ServeHealth)
    requires
        cli.asr != AsrBackend::External,
    ensures
        r.version@ == version@,
        r.model@ == report::reported_model(
            cli.choice(),
            provider::effective(cli.choice(), *w, true),
        ),
        match provider::effective(cli.choice(), *w, true) {
            Ok(e) => {
                &&& r.status@ == if e.config_error is None {
                    "ok"@
                } else {
                    "degraded"@
                }
                &&& text::text_of(r.backend) == Some(e.backend.label())
                &&& text::text_of(r.provider) == e.profile_name()
                &&& r.local_config_ok == e.config_error is None
                &&& text::text_of(r.local_config_error) == e.config_error
            },
            Err(fault) => {
                &&& r.status@ == "degraded"@
                &&& r.backend is None
                &&& r.provider is None
                &&& !r.local_config_ok
                &&& text::text_of(r.local_config_error) == Some(fault)
            },
        },
{
    let told = report::gather_capabilities_report_with_support(cli, w);
    ServeHealth {
        status: if told.local_config_ok {
            "ok"
        } else {
            "degraded"
        },
        version: text::copy(version),
        backend: told.resolved,
        provider: told.provider,
        model: told.model,
        local_config_ok: told.local_config_ok,
        local_config_error: match told.local_config_error {
            Some(e) => Some(e),
            None => told.resolution_error,
        },
    }
}

/// The models that the service lists: its own name, and the model behind it.
pub fn serve_models(cli: &Cli, w: &Surroundings) -> (r: Vec<String>)
    requires
        cli.asr != AsrBackend::External,
    ensures
        text::texts(r@) == {
            let model = report::reported_model(
                cli.choice(),
                provider::effective(cli.choice(), *w, true),
            );
            if model == "dicta"@ {
                seq!["dicta"@]
            } else {
                seq!["dicta"@, model]
            }
        },
{
    let told = report::gather_capabilities_report_with_support(cli, w);
    let mut ids: Vec<String> = Vec::new();
    ids.push(text::copy("dicta"));
    if !text::same(told.model.as_str(), "dicta") {
        ids.push(told.model);
        assert(text::texts(ids@) =~= seq!["dicta"@, told.model@]);
    } else {
        assert(text::texts(ids@) =~= seq!["dicta"@]);
    }
    ids
}

/// A provider that is ready to be asked.
pub enum ProviderSetup {
    OpenAi(OpenAiCompatibleAsr),
    Native(NativeAdapterAsr),
    External(InstalledProvider),
}

pub enum SetupView {
    OpenAi { base_url: Seq<char>, api_key: Option<Seq<char>>, model: Seq<char> },
    Native { command: Seq<char> },
    External(InstalledView),
}

impl View for ProviderSetup {
    type V = SetupView;

    open spec fn view(&self) -> SetupView {
        match self {
            ProviderSetup::OpenAi(p) => SetupView::OpenAi {
                base_url: p.config.base_url@,
                api_key: text::text_of(p.config.api_key),
                model: p.config.model@,
            },
            ProviderSetup::Native(p) => SetupView::Native { command: p.config.command@ },
            ProviderSetup::External(p) => SetupView::External(p@),
        }
    }
}

pub open spec fn setup(backend: AsrBackend, cli: Choice, w: Surroundings) -> Result<
    SetupView,
    Seq<char>,
> {
    match backend {
        AsrBackend::Apple => match provider::adapter_in_use(cli, w) {
            None => Err(
                "--asr apple requires --native-adapter, DICTA_NATIVE_ADAPTER, or a bundled native adapter binary next to dicta"@,
            ),
            Some(command) => if command.len() > 0 {
                Ok(SetupView::Native { command })
            } else {
                Err(AsrErrorView::Config("native adapter command is required"@).words())
            },
        },
        AsrBackend::External => match provider::external_package(cli, w) {
            Ok(p) => Ok(SetupView::External(p)),
            Err(e) => Err(e),
        },
        _ => match provider::resolved_profile(cli, w) {
            Err(e) => Err(e),
            Ok(p) => Ok(
                SetupView::OpenAi {
                    base_url: provider::api_base_in_use(cli, p),
                    api_key: provider::key_in_use(cli, w, p),
                    model: provider::model_in_use(cli, p),
                },
            ),
        },
    }
}

pub open spec fn setup_result(r: Result<ProviderSetup, String>) -> Result<SetupView, Seq<char>> {
    match r {
        Ok(p) => Ok(p@),
        Err(e) => Err(e@),
    }
}

/// Sets up the provider of a backend that was resolved.
pub fn build_provider(backend: AsrBackend, cli: &Cli, w: &Surroundings) -> (r: Result<
    ProviderSetup,
    String,
>)
    requires
        backend != AsrBackend::Auto,
    ensures
        setup_result(r) == setup(backend, cli.choice(), *w),
{
    match backend {
        AsrBackend::Apple => {
            match provider::resolve_native_adapter(cli, w) {
                None => Err(
                    text::copy(
                        "--asr apple requires --native-adapter, DICTA_NATIVE_ADAPTER, or a bundled native adapter binary next to dicta",
                    ),
                ),
                Some(command) => match NativeAdapterAsr::new(NativeAdapterConfig { command }) {
                    Ok(p) => Ok(ProviderSetup::Native(p)),
                    Err(e) => Err(e.message()),
                },
            }
        },
        AsrBackend::External => match provider::build_external_provider(cli, w) {
            Ok(p) => Ok(ProviderSetup::External(p)),
            Err(e) => Err(e),
        },
        _ => {
            let resolved = match provider::resolve_provider_profile_for(cli, w) {
                Ok(p) => p,
                Err(e) => {
                    return Err(e);
                },
            };
            let config = OpenAiCompatibleConfig {
                base_url: provider::openai_compatible_api_base(cli, &resolved),
                api_key: provider::openai_compatible_api_key(cli, w, &resolved),
                model: provider::openai_compatible_model(cli, &resolved),
            };
            proof {
                provider::lemma_in_use(cli.choice(), profile::resolved_of(resolved));
            }
            match OpenAiCompatibleAsr::new(config) {
                Ok(p) => Ok(ProviderSetup::OpenAi(p)),
                Err(e) => Err(e.message()),
            }
        },
    }
}

/// How a request is served.
pub struct RequestPlan {
    pub setup: ProviderSetup,
    pub options: AsrOptions,
    /// The audio is put into a file first: the provider takes nothing else.
    pub staged: bool,
}

/// The choice of a provider for a request: its model goes before the configured one.
pub open spec fn request_choice(cli: Choice, model: Option<Seq<char>>) -> Choice {
    match model {
        Some(m) => match serve::model_asked(m) {
            Some(asked) => Choice { api_model: Some(asked), ..cli },
            None => cli,
        },
        None => cli,
    }
}

/// A request that cannot be served for the way the service is set up.
pub open spec fn misconfigured(message: Seq<char>) -> ApiErrorView {
    ApiErrorView {
        status: serve::INTERNAL_SERVER_ERROR,
        message,
        error_type: "server_error"@,
        param: None,
        code: None,
    }
}

/// Decides how a request is served.
pub fn plan_request(cli: &Cli, w: &Surroundings, request: &ServeTranscriptionRequest) -> (r: Result<
    RequestPlan,
    ServeApiError,
>)
    requires
        cli.asr != AsrBackend::External,
    ensures
        ({
            let choice = request_choice(cli.choice(), text::text_of(request.model));
            match provider::resolved_backend(choice, *w) {
                Err(e) => r is Err && r->Err_0@ == misconfigured(
                    "ASR backend resolution failed: "@ + e,
                ),
                Ok(backend) => match setup(backend, choice, *w) {
                    Err(e) => r is Err && r->Err_0@ == misconfigured(
                        "ASR provider setup failed: "@ + e,
                    ),
                    Ok(s) => {
                        &&& r is Ok
                        &&& r->Ok_0.setup@ == s
                        &&& r->Ok_0.staged == (backend == AsrBackend::Apple || backend
                            == AsrBackend::External)
                        &&& text::text_of(r->Ok_0.options.language) == if request.language is Some {
                            text::text_of(request.language)
                        } else {
                            text::text_of(cli.src)
                        }
                        &&& text::text_of(r->Ok_0.options.prompt) == text::text_of(request.prompt)
                        &&& r->Ok_0.options.response_format == request.response_format.wanted()
                    },
                },
            }
        }),
{
    let model = serve::request_model(request, &cli.api_model);
    let own = cli.with_model(model);
    assert(own.choice() =~= request_choice(cli.choice(), text::text_of(request.model)));
    let backend = match provider::resolve_backend_for(&own, w) {
        Ok(b) => b,
        Err(e) => {
            return Err(
                ServeApiError::server_config(
                    text::cat("ASR backend resolution failed: ", e.as_str()),
                ),
            );
        },
    };
    match build_provider(backend, &own, w) {
        Err(e) => Err(
            ServeApiError::server_config(text::cat("ASR provider setup failed: ", e.as_str())),
        ),
        Ok(setup) => {
            let options = serve::request_options(request, &own.src);
            let staged = match backend {
                AsrBackend::Apple => true,
                AsrBackend::External => true,
                _ => false,
            };
            Ok(RequestPlan { setup, options, staged })
        },
    }
}

/// The model that a request asks for is the one that it is served with, before any that is
/// configured; a request that leaves the choice to the service changes nothing.
pub proof fn law_request_is_served_with_its_model(
    cli: Choice,
    w: Surroundings,
    model: Option<Seq<char>>,
    backend: AsrBackend,
)
    ensures
        ({
            let asked = text::trimmed(model->0);
            let concrete = model is Some && asked.len() > 0 && asked != "dicta"@ && asked
                != "default"@;
            &&& !concrete ==> request_choice(cli, model) == cli
            &&& concrete && setup(
                AsrBackend::OpenaiCompatible,
                request_choice(cli, model),
                w,
            ) is Ok ==> (setup(
                AsrBackend::OpenaiCompatible,
                request_choice(cli, model),
                w,
            )->Ok_0 matches SetupView::OpenAi { model: m, .. } && m == asked)
            &&& request_choice(cli, model).provider == cli.provider && request_choice(
                cli,
                model,
            ).asr == cli.asr && request_choice(cli, model).api_key == cli.api_key
                && request_choice(cli, model).api_base == cli.api_base && request_choice(
                cli,
                model,
            ).native_adapter == cli.native_adapter
        }),
{
    if let Some(m) = model {
        text::law_trim_idempotent(m);
    }
}

/// A provider is set up by what serves it: the machine's own recogniser by its adapter, an
/// external one by its package, and a service by an address, a key and a model.
pub proof fn law_setup_fits_the_backend(cli: Choice, w: Surroundings)
    ensures
        setup(AsrBackend::Apple, cli, w) matches Ok(s) ==> (s matches SetupView::Native { command }
            && provider::adapter_in_use(cli, w) == Some(command) && command.len() > 0),
        setup(AsrBackend::External, cli, w) matches Ok(s) ==> (s matches SetupView::External(p)
            && provider::external_package(cli, w) == Ok::<profile::InstalledView, Seq<char>>(p)),
        setup(AsrBackend::OpenaiCompatible, cli, w) is Ok <==> provider::resolved_profile(cli, w)
            is Ok,
        setup(AsrBackend::OpenaiCompatible, cli, w) matches Ok(s) ==> (s matches SetupView::OpenAi {
            base_url,
            api_key,
            ..
        } && base_url == provider::api_base_in_use(cli, provider::resolved_profile(cli, w)->Ok_0)
            && api_key == provider::key_in_use(cli, w, provider::resolved_profile(cli, w)->Ok_0)),
{
}

} // verus!
