//! The fetch gateway's decisions: what to do with each attempt's outcome,
//! which endpoint and payload each stage asks, and the self-throttle between
//! units of work.
use vstd::prelude::*;
use crate::schema::{Brands, Models, References};

verus! {

/// Seconds to wait after a transport failure before the next attempt.
pub const TRANSPORT_RETRY_SECS: u64 = 5;

/// Seconds to wait after a throttled (non-2xx) response before the next attempt.
pub const THROTTLE_RETRY_SECS: u64 = 60;

/// The outcome of one attempt to reach the remote API.
#[derive(Clone, Copy, PartialEq, Eq, Debug)]
pub enum Attempt {
    /// The server answered with this HTTP status.
    Response { status: u16 },
    /// DNS, connection or timeout failure.
    TransportError,
}

/// What the gateway does after an attempt.
#[derive(Clone, Copy, PartialEq, Eq, Debug)]
pub enum GatewayAction {
    /// Hand the response to the caller.
    Deliver,
    /// Sleep this many seconds, then send the same request again.
    Retry { wait_secs: u64 },
}

/// Whether an HTTP status code is in the success range.
pub open spec fn is_success_status(code: u16) -> bool {
    200 <= code && code < 300
}

/// The gateway's rule: deliver a 2xx response, wait 60 s after any other
/// status (throttling), wait 5 s after a transport failure. It never gives up.
pub open spec fn action_of(a: Attempt) -> GatewayAction {
    match a {
        Attempt::Response { status } => if is_success_status(status) {
            GatewayAction::Deliver
        } else {
            GatewayAction::Retry { wait_secs: THROTTLE_RETRY_SECS }
        },
        Attempt::TransportError => GatewayAction::Retry { wait_secs: TRANSPORT_RETRY_SECS },
    }
}

pub fn status_is_success(code: u16) -> (r: bool)
    ensures
        r == is_success_status(code),
{
    200 <= code && code < 300
}

/// Decides what follows an attempt.
pub fn next_action(a: Attempt) -> (r: GatewayAction)
    ensures
        r == action_of(a),
{
    match a {
        Attempt::Response { status } => if status_is_success(status) {
            GatewayAction::Deliver
        } else {
            GatewayAction::Retry { wait_secs: THROTTLE_RETRY_SECS }
        },
        Attempt::TransportError => GatewayAction::Retry { wait_secs: TRANSPORT_RETRY_SECS },
    }
}

/// The position of the first attempt that is delivered, or the length when none is.
pub open spec fn delivered_at(attempts: Seq<Attempt>) -> int
    decreases attempts.len(),
{
    if attempts.len() == 0 {
        0
    } else if action_of(attempts[0]) == GatewayAction::Deliver {
        0
    } else {
        1 + delivered_at(attempts.drop_first())
    }
}

/// Seconds slept before the attempt at position `n` is made.
pub open spec fn waited_before(attempts: Seq<Attempt>, n: int) -> int
    decreases n,
{
    if n <= 0 {
        0
    } else {
        waited_before(attempts, n - 1) + match action_of(attempts[n - 1]) {
            GatewayAction::Retry { wait_secs } => wait_secs as int,
            GatewayAction::Deliver => 0,
        }
    }
}

/// A throttled run ended by a success: `n` non-2xx responses, then a 2xx one.
pub open spec fn throttled_then_ok(attempts: Seq<Attempt>, n: nat) -> bool {
    &&& attempts.len() == n + 1
    &&& forall|i: int|
        0 <= i < n ==> match #[trigger] attempts[i] {
            Attempt::Response { status } => !is_success_status(status),
            Attempt::TransportError => false,
        }
    &&& match attempts[n as int] {
        Attempt::Response { status } => is_success_status(status),
        Attempt::TransportError => false,
    }
}

/// After `n` throttled responses and then a successful one, the gateway has
/// retried each throttled attempt after the throttling delay and delivers
/// exactly one response: the successful one, the last.
pub proof fn lemma_throttling_recovery(attempts: Seq<Attempt>, n: nat)
    requires
        throttled_then_ok(attempts, n),
    ensures
        delivered_at(attempts) == n,
        forall|i: int|
            0 <= i < n ==> action_of(#[trigger] attempts[i]) == (GatewayAction::Retry {
                wait_secs: THROTTLE_RETRY_SECS,
            }),
        action_of(attempts[n as int]) == GatewayAction::Deliver,
        forall|i: int| 0 <= i <= n && action_of(#[trigger] attempts[i]) == GatewayAction::Deliver ==> i == n,
        waited_before(attempts, n as int) == n * THROTTLE_RETRY_SECS,
    decreases n,
{
    assert forall|i: int| 0 <= i < n implies action_of(#[trigger] attempts[i]) == (GatewayAction::Retry {
        wait_secs: THROTTLE_RETRY_SECS,
    }) by {
        match attempts[i] {
            Attempt::Response { status } => {},
            Attempt::TransportError => {},
        }
    }
    if n > 0 {
        let rest = attempts.drop_first();
        assert forall|i: int| 0 <= i < n - 1 implies match #[trigger] rest[i] {
            Attempt::Response { status } => !is_success_status(status),
            Attempt::TransportError => false,
        } by {
            assert(rest[i] == attempts[i + 1]);
        }
        assert(rest[(n - 1) as int] == attempts[n as int]);
        lemma_throttling_recovery(rest, (n - 1) as nat);
    }
    lemma_waited(attempts, n as int);
}

proof fn lemma_waited(attempts: Seq<Attempt>, k: int)
    requires
        0 <= k < attempts.len(),
        forall|i: int|
            0 <= i < k ==> action_of(#[trigger] attempts[i]) == (GatewayAction::Retry {
                wait_secs: THROTTLE_RETRY_SECS,
            }),
    ensures
        waited_before(attempts, k) == k * THROTTLE_RETRY_SECS,
    decreases k,
{
    if k > 0 {
        lemma_waited(attempts, k - 1);
    }
}

/// Relies on `rand::random_range`: a value drawn uniformly from `low..high`,
/// which it requires to be non-empty.
#[verifier::external_body]
fn random_in(low: u64, high: u64) -> (r: u64)
    requires
        low < high,
    ensures
        low <= r < high,
{
    rand::random_range(low..high)
}

/// The rotating pool of User-Agent identities.
pub fn user_agent_at(i: u64) -> (r: &'static str)
    ensures
        i % 4 == 0 ==> r == "Mozilla/5.0 (Windows NT 10.0; Win64; x64) AppleWebKit/537.36 (KHTML, like Gecko) Chrome/120.0.0.0 Safari/537.36",
        i % 4 == 1 ==> r == "Mozilla/5.0 (Macintosh; Intel Mac OS X 14_2) AppleWebKit/605.1.15 (KHTML, like Gecko) Version/17.2 Safari/605.1.15",
        i % 4 == 2 ==> r == "Mozilla/5.0 (X11; Linux x86_64; rv:121.0) Gecko/20100101 Firefox/121.0",
        i % 4 == 3 ==> r == "Mozilla/5.0 (Windows NT 10.0; Win64; x64; rv:121.0) Gecko/20100101 Firefox/121.0",
{
    let k = i % 4;
    if k == 0 {
        "Mozilla/5.0 (Windows NT 10.0; Win64; x64) AppleWebKit/537.36 (KHTML, like Gecko) Chrome/120.0.0.0 Safari/537.36"
    } else if k == 1 {
        "Mozilla/5.0 (Macintosh; Intel Mac OS X 14_2) AppleWebKit/605.1.15 (KHTML, like Gecko) Version/17.2 Safari/605.1.15"
    } else if k == 2 {
        "Mozilla/5.0 (X11; Linux x86_64; rv:121.0) Gecko/20100101 Firefox/121.0"
    } else {
        "Mozilla/5.0 (Windows NT 10.0; Win64; x64; rv:121.0) Gecko/20100101 Firefox/121.0"
    }
}

/// A User-Agent picked at random from the pool, for one request.
pub fn get_random_user_agent() -> (r: &'static str)
    ensures
        exists|i: u64| i < 4 && r == user_agent_at_spec(i),
{
    let i = random_in(0, 4);
    let r = user_agent_at(i);
    assert(r == user_agent_at_spec(i));
    r
}

/// The pool entry at `i`, as `user_agent_at` returns it.
pub open spec fn user_agent_at_spec(i: u64) -> &'static str {
    if i % 4 == 0 {
        "Mozilla/5.0 (Windows NT 10.0; Win64; x64) AppleWebKit/537.36 (KHTML, like Gecko) Chrome/120.0.0.0 Safari/537.36"
    } else if i % 4 == 1 {
        "Mozilla/5.0 (Macintosh; Intel Mac OS X 14_2) AppleWebKit/605.1.15 (KHTML, like Gecko) Version/17.2 Safari/605.1.15"
    } else if i % 4 == 2 {
        "Mozilla/5.0 (X11; Linux x86_64; rv:121.0) Gecko/20100101 Firefox/121.0"
    } else {
        "Mozilla/5.0 (Windows NT 10.0; Win64; x64; rv:121.0) Gecko/20100101 Firefox/121.0"
    }
}

/// Seconds of the self-throttle pause between two units of work: 1 to 3.
pub fn throttle_secs() -> (r: u64)
    ensures
        1 <= r <= 3,
{
    random_in(1, 4)
}

/// The four endpoints of the remote API.
#[derive(Clone, Copy, PartialEq, Eq, Debug)]
pub enum Endpoint {
    References,
    Brands,
    Models,
    Years,
}

impl Endpoint {
    pub fn url(&self) -> (r: &'static str)
        ensures
            *self == Endpoint::References ==> r == "https://veiculos.fipe.org.br/api/veiculos/ConsultarTabelaDeReferencia",
            *self == Endpoint::Brands ==> r == "https://veiculos.fipe.org.br/api/veiculos/ConsultarMarcas",
            *self == Endpoint::Models ==> r == "https://veiculos.fipe.org.br/api/veiculos/ConsultarModelos",
            *self == Endpoint::Years ==> r == "https://veiculos.fipe.org.br/api/veiculos/ConsultarAnoModelo",
    {
        match self {
            Endpoint::References => "https://veiculos.fipe.org.br/api/veiculos/ConsultarTabelaDeReferencia",
            Endpoint::Brands => "https://veiculos.fipe.org.br/api/veiculos/ConsultarMarcas",
            Endpoint::Models => "https://veiculos.fipe.org.br/api/veiculos/ConsultarModelos",
            Endpoint::Years => "https://veiculos.fipe.org.br/api/veiculos/ConsultarAnoModelo",
        }
    }
}

/// The fixed Referer header of every request.
pub const REFERER: &'static str = "http://veiculos.fipe.org.br/";

/// The codes a request carries; absent codes are left out of the JSON body.
pub struct RequestBody {
    pub codigo_tipo_veiculo: Option<i32>,
    pub codigo_tabela_referencia: Option<String>,
    pub codigo_marca: Option<String>,
    pub codigo_modelo: Option<String>,
}

/// The reference-period request carries no code.
pub fn references_request() -> (r: RequestBody)
    ensures
        r.codigo_tipo_veiculo is None,
        r.codigo_tabela_referencia is None,
        r.codigo_marca is None,
        r.codigo_modelo is None,
{
    RequestBody {
        codigo_tipo_veiculo: None,
        codigo_tabela_referencia: None,
        codigo_marca: None,
        codigo_modelo: None,
    }
}

/// The brand request of a vehicle type and a reference period.
pub fn brands_request(type_id: i32, reference: &References) -> (r: RequestBody)
    ensures
        r.codigo_tipo_veiculo == Some(type_id),
        r.codigo_tabela_referencia is Some && r.codigo_tabela_referencia->0@ == reference.fipe@,
        r.codigo_marca is None,
        r.codigo_modelo is None,
{
    RequestBody {
        codigo_tipo_veiculo: Some(type_id),
        codigo_tabela_referencia: Some(reference.fipe.clone()),
        codigo_marca: None,
        codigo_modelo: None,
    }
}

/// The model request of a pending brand.
pub fn models_request(brand: &Brands) -> (r: RequestBody)
    ensures
        r.codigo_tipo_veiculo == Some(brand.type_id),
        r.codigo_tabela_referencia is Some && r.codigo_tabela_referencia->0@ == brand.ref_id@,
        r.codigo_marca is Some && r.codigo_marca->0@ == brand.fipe@,
        r.codigo_modelo is None,
{
    RequestBody {
        codigo_tipo_veiculo: Some(brand.type_id),
        codigo_tabela_referencia: Some(brand.ref_id.clone()),
        codigo_marca: Some(brand.fipe.clone()),
        codigo_modelo: None,
    }
}

/// The year request of a pending model identity, through its representative.
pub fn years_request(model: &Models) -> (r: RequestBody)
    ensures
        r.codigo_tipo_veiculo == Some(model.type_id),
        r.codigo_tabela_referencia is Some && r.codigo_tabela_referencia->0@ == model.ref_id@,
        r.codigo_marca is Some && r.codigo_marca->0@ == model.brand_id@,
        r.codigo_modelo is Some && r.codigo_modelo->0@ == model.fipe@,
{
    RequestBody {
        codigo_tipo_veiculo: Some(model.type_id),
        codigo_tabela_referencia: Some(model.ref_id.clone()),
        codigo_marca: Some(model.brand_id.clone()),
        codigo_modelo: Some(model.fipe.clone()),
    }
}

} // verus!
