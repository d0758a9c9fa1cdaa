//! The read-only side of the client: where to ask for the contract state and the protocol
//! parameters, and what to make of the answers of a Blockfrost-compatible API.

use crate::datum::cbor_hex_to_plutus_json;
use crate::error::{CardanoError, ErrorView};
use crate::json::{Json, JsonView};
use crate::text::{joined, without_slashes};
use crate::types::{State, StateView};
use crate::{contract, datum, error, json, round_trip, text, types};
use vstd::prelude::*;
use vstd::string::*;

verus! {

/// Configuration for connecting to a Cardano network.
#[derive(Debug, PartialEq)]
pub struct CardanoConfig {
    /// Blockfrost-compatible API base URL (e.g. `http://localhost:8080/api/v1/`).
    pub blockfrost_url: String,
    /// Blockfrost API key (use `local` for a local node).
    pub blockfrost_key: String,
    /// Script address of the contract.
    pub script_address: String,
}

/// The model of a [`CardanoConfig`].
pub struct ConfigView {
    pub blockfrost_url: Seq<char>,
    pub blockfrost_key: Seq<char>,
    pub script_address: Seq<char>,
}

impl View for CardanoConfig {
    type V = ConfigView;

    open spec fn view(&self) -> ConfigView {
        ConfigView {
            blockfrost_url: self.blockfrost_url@,
            blockfrost_key: self.blockfrost_key@,
            script_address: self.script_address@,
        }
    }
}

/// The text of an environment variable, or a default.
pub open spec fn or_default(value: Option<String>, default: Seq<char>) -> Seq<char> {
    match value {
        Some(s) => s@,
        None => default,
    }
}

impl CardanoConfig {
    /// Makes a configuration from the environment variables `SCRIPT_ADDRESS`,
    /// `BLOCKFROST_BASE_URL` and `BLOCKFROST_PROJECT_ID`, with sensible defaults for the
    /// last two.
    pub fn from_env(
        script_address: Option<String>,
        blockfrost_base_url: Option<String>,
        blockfrost_project_id: Option<String>,
    ) -> (r: Result<CardanoConfig, CardanoError>)
        ensures
            error::outcome(r) == match script_address {
                Some(address) => Ok(
                    ConfigView {
                        blockfrost_url: or_default(
                            blockfrost_base_url,
                            "http://localhost:8080/api/v1/"@,
                        ),
                        blockfrost_key: or_default(blockfrost_project_id, "local"@),
                        script_address: address@,
                    },
                ),
                None => Err(ErrorView::NotFound("SCRIPT_ADDRESS env var not set"@)),
            },
    {
        let script_address = match script_address {
            Some(address) => address,
            None => {
                return Err(CardanoError::not_found("SCRIPT_ADDRESS env var not set"));
            },
        };
        Ok(
            CardanoConfig {
                blockfrost_url: match blockfrost_base_url {
                    Some(url) => url,
                    None => "http://localhost:8080/api/v1/".to_owned(),
                },
                blockfrost_key: match blockfrost_project_id {
                    Some(key) => key,
                    None => "local".to_owned(),
                },
                script_address,
            },
        )
    }
}

impl Clone for CardanoConfig {
    fn clone(&self) -> (r: CardanoConfig)
        ensures
            r@ == self@,
    {
        CardanoConfig {
            blockfrost_url: self.blockfrost_url.clone(),
            blockfrost_key: self.blockfrost_key.clone(),
            script_address: self.script_address.clone(),
        }
    }
}

/// Where the unspent outputs of an address are asked for.
pub open spec fn utxos_url(base: Seq<char>, address: Seq<char>) -> Seq<char> {
    text::trim_slashes(base) + "/addresses/"@ + address + "/utxos"@
}

/// Where a datum is asked for by its hash.
pub open spec fn datum_url(base: Seq<char>, data_hash: Seq<char>) -> Seq<char> {
    text::trim_slashes(base) + "/scripts/datum/"@ + data_hash
}

/// Where the protocol parameters are asked for.
pub open spec fn parameters_url(base: Seq<char>) -> Seq<char> {
    text::trim_slashes(base) + "/epochs/latest/parameters"@
}

/// Agent for interacting with the Lightning Liquidity Manager contract.
pub struct CardanoAgent {
    config: CardanoConfig,
}

impl CardanoAgent {
    /// The configuration of the agent.
    pub closed spec fn config_view(&self) -> ConfigView {
        self.config@
    }

    /// Makes an agent.
    pub fn new(config: CardanoConfig) -> (r: CardanoAgent)
        ensures
            r.config_view() == config@,
    {
        CardanoAgent { config }
    }

    /// The configuration of the agent.
    pub fn config(&self) -> (r: &CardanoConfig)
        ensures
            r@ == self.config_view(),
    {
        &self.config
    }

    /// Where the unspent outputs of an address are asked for.
    pub fn utxos_url(&self, address: &str) -> (r: String)
        ensures
            r@ == utxos_url(self.config_view().blockfrost_url, address@),
    {
        let mut url = without_slashes(self.config.blockfrost_url.as_str());
        url.append("/addresses/");
        url.append(address);
        url.append("/utxos");
        url
    }

    /// Where a datum is asked for by its hash.
    pub fn datum_url(&self, data_hash: &str) -> (r: String)
        ensures
            r@ == datum_url(self.config_view().blockfrost_url, data_hash@),
    {
        let mut url = without_slashes(self.config.blockfrost_url.as_str());
        url.append("/scripts/datum/");
        url.append(data_hash);
        url
    }

    /// Where the protocol parameters are asked for.
    pub fn parameters_url(&self) -> (r: String)
        ensures
            r@ == parameters_url(self.config_view().blockfrost_url),
    {
        let mut url = without_slashes(self.config.blockfrost_url.as_str());
        url.append("/epochs/latest/parameters");
        url
    }
}

/// What is said where the API refuses to list unspent outputs.
pub fn api_error(status: &str, body: &str) -> (r: CardanoError)
    ensures
        r@ == ErrorView::NotFound("Blockfrost API error "@ + status@ + ": "@ + body@),
{
    let mut message = joined("Blockfrost API error ", status);
    message.append(": ");
    message.append(body);
    CardanoError::NotFound(message)
}

/// The inline datum of an unspent output, where it has one.
pub open spec fn inline_datum(utxo: JsonView) -> Option<JsonView> {
    match json::member(utxo, "inline_datum"@) {
        Some(JsonView::Null) => None,
        d => d,
    }
}

/// The state that an inline datum holds: CBOR hex, or Plutus JSON.
pub open spec fn datum_state(d: JsonView) -> Result<StateView, ErrorView> {
    match d {
        JsonView::Str(hex) => match datum::hex_to_json(hex) {
            Ok(j) => types::state_of(j),
            Err(e) => Err(e),
        },
        _ => types::state_of(d),
    }
}

/// The first inline datum among some unspent outputs.
pub open spec fn first_inline_datum(utxos: Seq<JsonView>) -> Option<JsonView>
    decreases utxos.len(),
{
    if utxos.len() == 0 {
        None
    } else if inline_datum(utxos[0]) is Some {
        inline_datum(utxos[0])
    } else {
        first_inline_datum(utxos.skip(1))
    }
}

/// What a query for the contract state does next.
pub enum QueryStep {
    /// It ends.
    Done(Result<State, CardanoError>),
    /// It asks for the datum of this hash, which the unspent output at `index` names.
    FetchDatum { index: usize, data_hash: String },
}

/// The model of a [`QueryStep`].
pub enum QueryView {
    Done(Result<StateView, ErrorView>),
    FetchDatum { index: int, data_hash: Seq<char> },
}

impl View for QueryStep {
    type V = QueryView;

    open spec fn view(&self) -> QueryView {
        match self {
            QueryStep::Done(r) => QueryView::Done(error::outcome(*r)),
            QueryStep::FetchDatum { index, data_hash } => QueryView::FetchDatum {
                index: *index as int,
                data_hash: data_hash@,
            },
        }
    }
}

/// Looks from `index` on for an unspent output that names a datum by its hash.
pub open spec fn next_datum(utxos: Seq<JsonView>, index: int) -> QueryView
    decreases utxos.len() - index,
{
    if index < 0 || index >= utxos.len() {
        QueryView::Done(
            Err(ErrorView::NotFound("no UTxO with datum found at script address"@)),
        )
    } else {
        match json::string_at(utxos[index], "data_hash"@) {
            Some(data_hash) => QueryView::FetchDatum { index, data_hash },
            None => next_datum(utxos, index + 1),
        }
    }
}

/// The first step of a query: the first inline datum decides, and without one the datums
/// that are named by their hash are asked for in turn.
pub open spec fn first_step(utxos: Seq<JsonView>) -> QueryView {
    if utxos.len() == 0 {
        QueryView::Done(Err(ErrorView::NotFound("no UTxOs found at script address"@)))
    } else {
        match first_inline_datum(utxos) {
            Some(d) => QueryView::Done(datum_state(d)),
            None => next_datum(utxos, 0),
        }
    }
}

/// The step after a datum was asked for: the answer decides if it holds a value, and else
/// the next datum is asked for.
pub open spec fn step_after(
    utxos: Seq<JsonView>,
    index: int,
    answer: Option<JsonView>,
) -> QueryView {
    match answer {
        Some(wrapper) => match json::member(wrapper, "json_value"@) {
            Some(value) => QueryView::Done(types::state_of(value)),
            None => next_datum(utxos, index + 1),
        },
        None => next_datum(utxos, index + 1),
    }
}

impl CardanoAgent {
    /// Begins a query for the contract state, with the unspent outputs at the script address.
    pub fn query_state(&self, utxos: &Vec<Json>) -> (r: QueryStep)
        ensures
            r@ == first_step(json::array_view(utxos@)),
    {
        let ghost views = json::array_view(utxos@);
        proof {
            json::lemma_array_view(utxos@);
            assert(views.skip(0) =~= views);
        }
        if utxos.len() == 0 {
            return QueryStep::Done(
                Err(CardanoError::not_found("no UTxOs found at script address")),
            );
        }
        let mut i: usize = 0;
        while i < utxos.len()
            invariant
                i <= utxos.len(),
                views == json::array_view(utxos@),
                views.len() == utxos.len(),
                views.len() > 0,
                forall|k: int| 0 <= k < utxos.len() ==> #[trigger] views[k] == utxos[k]@,
                first_inline_datum(views) == first_inline_datum(views.skip(i as int)),
            decreases utxos.len() - i,
        {
            assert(views.skip(i as int)[0] == views[i as int]);
            assert(views.skip(i as int).skip(1) =~= views.skip(i + 1));
            if let Some(d) = utxos[i].get("inline_datum") {
                if !d.is_null() {
                    return QueryStep::Done(parse_datum(d));
                }
            }
            i = i + 1;
        }
        find_datum(utxos, 0)
    }

    /// Goes on with a query after the datum named by the output at `index` was asked for.
    /// Without an answer, the API refused the request.
    pub fn datum_answer(&self, utxos: &Vec<Json>, index: usize, answer: Option<&Json>) -> (r:
        QueryStep)
        requires
            index < utxos.len(),
        ensures
            r@ == step_after(
                json::array_view(utxos@),
                index as int,
                match answer {
                    Some(j) => Some(j@),
                    None => None,
                },
            ),
    {
        if let Some(wrapper) = answer {
            if let Some(value) = wrapper.get("json_value") {
                return QueryStep::Done(State::try_from(value));
            }
        }
        find_datum(utxos, index + 1)
    }
}

/// Parses the state that an inline datum holds.
fn parse_datum(d: &Json) -> (r: Result<State, CardanoError>)
    ensures
        error::outcome(r) == datum_state(d@),
{
    match d.as_str() {
        Some(cbor_hex) => match cbor_hex_to_plutus_json(cbor_hex) {
            Ok(plutus_json) => State::try_from(&plutus_json),
            Err(e) => Err(e),
        },
        None => State::try_from(d),
    }
}

/// Looks from `index` on for an unspent output that names a datum by its hash.
fn find_datum(utxos: &Vec<Json>, index: usize) -> (r: QueryStep)
    requires
        index <= utxos.len(),
    ensures
        r@ == next_datum(json::array_view(utxos@), index as int),
{
    let ghost views = json::array_view(utxos@);
    proof {
        json::lemma_array_view(utxos@);
    }
    let mut i: usize = index;
    while i < utxos.len()
        invariant
            i <= utxos.len(),
            views == json::array_view(utxos@),
            views.len() == utxos.len(),
            forall|k: int| 0 <= k < utxos.len() ==> #[trigger] views[k] == utxos[k]@,
            next_datum(views, index as int) == next_datum(views, i as int),
        decreases utxos.len() - i,
    {
        assert(views[i as int] == utxos[i as int]@);
        if let Some(hash) = utxos[i].get_str("data_hash") {
            return QueryStep::FetchDatum { index: i, data_hash: hash.to_owned() };
        }
        i = i + 1;
    }
    QueryStep::Done(
        Err(CardanoError::not_found("no UTxO with datum found at script address")),
    )
}

/// What comes of a query that starts at `step`, where `answers` gives the answer to each
/// datum that is asked for, by the index of the output that names it. After `limit` answers
/// it gives up.
pub open spec fn run_query(
    utxos: Seq<JsonView>,
    step: QueryView,
    answers: spec_fn(int) -> Option<JsonView>,
    limit: nat,
) -> Option<Result<StateView, ErrorView>>
    decreases limit,
{
    match step {
        QueryView::Done(r) => Some(r),
        QueryView::FetchDatum { index, .. } => if limit == 0 {
            None
        } else {
            run_query(
                utxos,
                step_after(utxos, index, answers(index)),
                answers,
                (limit - 1) as nat,
            )
        },
    }
}

/// The value of the datum that the output at `index` names, where there is one.
pub open spec fn answered_value(
    utxos: Seq<JsonView>,
    answers: spec_fn(int) -> Option<JsonView>,
    index: int,
) -> Option<JsonView> {
    if json::string_at(utxos[index], "data_hash"@) is Some && answers(index) is Some {
        json::member(answers(index)->Some_0, "json_value"@)
    } else {
        None
    }
}

/// The state of a pool whose datums are named by their hash, from `index` on: the first
/// datum with a value decides.
pub open spec fn answered_state(
    utxos: Seq<JsonView>,
    answers: spec_fn(int) -> Option<JsonView>,
    index: int,
) -> Result<StateView, ErrorView>
    decreases utxos.len() - index,
{
    if index < 0 || index >= utxos.len() {
        Err(ErrorView::NotFound("no UTxO with datum found at script address"@))
    } else {
        match answered_value(utxos, answers, index) {
            Some(value) => types::state_of(value),
            None => answered_state(utxos, answers, index + 1),
        }
    }
}

/// A query comes to an end after one answer for each output at most. The first inline datum
/// decides what comes of it and, where there is none, the first datum with a value.
pub proof fn lemma_query(utxos: Seq<JsonView>, answers: spec_fn(int) -> Option<JsonView>)
    ensures
        run_query(utxos, first_step(utxos), answers, utxos.len()) == Some(
            if utxos.len() == 0 {
                Err(ErrorView::NotFound("no UTxOs found at script address"@))
            } else {
                match first_inline_datum(utxos) {
                    Some(d) => datum_state(d),
                    None => answered_state(utxos, answers, 0),
                }
            },
        ),
{
    if utxos.len() > 0 && first_inline_datum(utxos) is None {
        lemma_query_from(utxos, answers, 0, utxos.len());
    }
}

/// A query that looks for a datum from `index` on needs one answer for each output from
/// there at most.
proof fn lemma_query_from(
    utxos: Seq<JsonView>,
    answers: spec_fn(int) -> Option<JsonView>,
    index: int,
    limit: nat,
)
    requires
        0 <= index <= utxos.len(),
        limit >= utxos.len() - index,
    ensures
        run_query(utxos, next_datum(utxos, index), answers, limit) == Some(
            answered_state(utxos, answers, index),
        ),
    decreases utxos.len() - index,
{
    if index < utxos.len() {
        if json::string_at(utxos[index], "data_hash"@) is Some {
            if answered_value(utxos, answers, index) is None {
                lemma_query_from(utxos, answers, index + 1, (limit - 1) as nat);
                assert(step_after(utxos, index, answers(index)) == next_datum(utxos, index + 1));
            } else {
                let value = answered_value(utxos, answers, index)->Some_0;
                assert(step_after(utxos, index, answers(index)) == QueryView::Done(
                    types::state_of(value),
                ));
                assert(run_query(
                    utxos,
                    QueryView::Done(types::state_of(value)),
                    answers,
                    (limit - 1) as nat,
                ) == Some(types::state_of(value)));
            }
        } else {
            lemma_query_from(utxos, answers, index + 1, limit);
        }
    }
}

/// A pool state that stands in the first inline datum, as Plutus JSON or as CBOR hex that is
/// read as it, is what a query gives back.
pub proof fn lemma_query_reads(utxos: Seq<JsonView>, state: StateView, hex: Seq<char>)
    requires
        utxos.len() > 0,
        ({
            ||| first_inline_datum(utxos) == Some(datum::state_json(state))
            ||| first_inline_datum(utxos) == Some(JsonView::Str(hex)) && contract::datum_reads(
                hex,
                state,
            )
        }),
    ensures
        first_step(utxos) == QueryView::Done(Ok(state)),
{
    round_trip::lemma_state_json(state);
}

} // verus!
