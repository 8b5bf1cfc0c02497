//! The protocol dispatcher: validates envelopes, routes methods,
//! executes them against the store, and maps every failure to its
//! protocol error code.
//!
//! Three terminal outcomes per request: a success result, a protocol
//! error, or — for a notification, a request without an identifier —
//! no response at all.  The mutating method sits in the route table
//! only while write access is enabled; disabled, it is indistinguishable
//! from a method that never existed.

use vstd::prelude::*;

use crate::auth::ERROR_UNAUTHORIZED;
use crate::auth::auth_ok;
use crate::auth::token_trusted;
use crate::auth::token_trusted_exec;
use crate::auth::unauthorized_error_message;
use crate::db_service::DatabaseService;
use crate::db_service::StoreError;
use crate::db_service::chapter_content_text;
use crate::db_service::chapter_index;
use crate::db_service::character_index;
use crate::db_service::effective_limit;
use crate::db_service::filter_chapters;
use crate::db_service::filter_chapters_regex;
use crate::db_service::filter_characters;
use crate::db_service::filter_characters_regex;
use crate::db_service::filter_novels;
use crate::db_service::filter_qa;
use crate::db_service::filter_qa_regex;
use crate::db_service::first_n;
use crate::db_service::sort_chapters;
use crate::db_service::sort_characters;
use crate::db_service::valid_object_id;
use crate::formatting::character_details_text;
use crate::formatting::content_for_llm_text;
use crate::formatting::format_character_details;
use crate::formatting::format_chapters;
use crate::formatting::format_chapters_text;
use crate::formatting::format_characters;
use crate::formatting::format_characters_text;
use crate::formatting::format_content_for_llm;
use crate::formatting::format_novels_text;
use crate::formatting::format_qa;
use crate::formatting::format_qa_text;
use crate::formatting::no_results_text;
use crate::models::ChapterV;
use crate::models::CharacterV;
use crate::models::NovelV;
use crate::models::QAV;
use crate::models::SearchParamsV;
use crate::protocol::ERROR_INTERNAL;
use crate::protocol::ERROR_INVALID_PARAMS;
use crate::protocol::ERROR_INVALID_REQUEST;
use crate::protocol::ERROR_METHOD_NOT_FOUND;
use crate::protocol::MCPParams;
use crate::protocol::MCPRequest;
use crate::protocol::MCPResponse;
use crate::protocol::MCPResult;
use crate::protocol::MpcError;
use crate::protocol::ParamV;
use crate::protocol::error_response;
use crate::protocol::opt_view;
use crate::protocol::param_str;
use crate::protocol::response_well_formed;
use crate::protocol::success_response;
use crate::protocol::supported_version;
use crate::query_parser::QueryParser;
use crate::query_parser::collection_of;
use crate::query_parser::parsed_params;
use crate::text::has_prefix;
use crate::text::lemma_concat_has_prefix;
use crate::text::str_eq;

verus! {

/// Runtime configuration: the write-access flag and the trusted-token
/// allowlist, both injected rather than compiled in.
pub struct ServerConfig {
    pub write_enabled: bool,
    pub trusted_tokens: Vec<String>,
}

/// The dispatcher, generic over the store-access capability.
pub struct MCPDatabaseServer<T: DatabaseService> {
    pub db_service: T,
    pub config: ServerConfig,
}

/// The reply the free-text query path renders for the novels
/// collection.
pub open spec fn novels_query_text(ns: Seq<NovelV>, p: SearchParamsV) -> Seq<char> {
    let rs = first_n(filter_novels(ns, p), effective_limit(p, 5) as nat);
    if rs.len() == 0 {
        no_results_text(p.collection)
    } else {
        format_novels_text(rs)
    }
}

/// The reply the free-text query path renders for the chapters
/// collection.
pub open spec fn chapters_query_text(cs: Seq<ChapterV>, p: SearchParamsV) -> Seq<char> {
    let rs = first_n(sort_chapters(filter_chapters(cs, p)), effective_limit(p, 3) as nat);
    if rs.len() == 0 {
        no_results_text(p.collection)
    } else {
        format_chapters_text(rs)
    }
}

/// The reply the free-text query path renders for the characters
/// collection.
pub open spec fn characters_query_text(cs: Seq<CharacterV>, p: SearchParamsV) -> Seq<char> {
    let rs = first_n(sort_characters(filter_characters(cs, p)),
        effective_limit(p, 5) as nat);
    if rs.len() == 0 {
        no_results_text(p.collection)
    } else {
        format_characters_text(rs)
    }
}

/// The reply the free-text query path renders for the question/answer
/// collection.
pub open spec fn qa_query_text(qs: Seq<QAV>, p: SearchParamsV) -> Seq<char> {
    let rs = first_n(filter_qa(qs, p), effective_limit(p, 3) as nat);
    if rs.len() == 0 {
        no_results_text(p.collection)
    } else {
        format_qa_text(rs)
    }
}

/// The reply of the free-text query path: the parsed collection picks
/// the search, and its bounded results are rendered per kind.
pub open spec fn query_reply(ns: Seq<NovelV>, chs: Seq<ChapterV>, crs: Seq<CharacterV>,
    qs: Seq<QAV>, q: Seq<char>) -> Seq<char> {
    let p = parsed_params(q);
    if p.collection == "novels"@ {
        novels_query_text(ns, p)
    } else if p.collection == "chapters"@ {
        chapters_query_text(chs, p)
    } else if p.collection == "characters"@ {
        characters_query_text(crs, p)
    } else {
        qa_query_text(qs, p)
    }
}

/// The collection scan yields one of exactly four names.
proof fn lemma_collection_cases(q: Seq<char>)
    ensures
        collection_of(q) == "novels"@ || collection_of(q) == "chapters"@
            || collection_of(q) == "characters"@ || collection_of(q) == "qa"@,
{
}

/// A human-readable account of a store failure.
fn store_error_message(e: &StoreError) -> (r: String)
    ensures
        match e {
            StoreError::NotFound => r@ == "record not found"@,
            StoreError::InvalidId => r@ == "invalid record identifier"@,
            StoreError::Backend(m) => r@ == m@,
        },
{
    match e {
        StoreError::NotFound => "record not found".to_owned(),
        StoreError::InvalidId => "invalid record identifier".to_owned(),
        StoreError::Backend(m) => m.clone(),
    }
}

/// The methods the dispatcher routes; the mutating method only while
/// write access is enabled.
pub open spec fn known_method(m: Seq<char>, write_enabled: bool) -> bool {
    ||| m == "query"@
    ||| m == "get_chapter_content"@
    ||| m == "get_character_details"@
    ||| m == "query_qa_regex"@
    ||| m == "query_chapter_regex"@
    ||| m == "query_character_regex"@
    ||| m == "mcp.capabilities"@
    ||| m == "mcp.prompts"@
    ||| m == "initialize"@
    ||| m == "notifications/initialized"@
    ||| (write_enabled && m == "update_chapter_summary"@)
}

/// Each method's required parameters are present as strings.
pub open spec fn required_params_ok(m: Seq<char>, ps: Seq<ParamV>) -> bool {
    if m == "query"@ {
        param_str(ps, "query"@) is Some
    } else if m == "get_chapter_content"@ {
        param_str(ps, "chapter_id"@) is Some
    } else if m == "get_character_details"@ {
        param_str(ps, "character_id"@) is Some
    } else if m == "query_qa_regex"@ || m == "query_chapter_regex"@
        || m == "query_character_regex"@ {
        param_str(ps, "regex_pattern"@) is Some
    } else if m == "update_chapter_summary"@ {
        param_str(ps, "chapter_id"@) is Some && param_str(ps, "summary"@) is Some
            && param_str(ps, "auth_token"@) is Some
    } else {
        true
    }
}

/// The error payload carries this code.
pub open spec fn err_code(resp: MCPResponse, code: i32) -> bool {
    match resp.error {
        Some(e) => e.code == code,
        None => false,
    }
}

impl<T: DatabaseService> MCPDatabaseServer<T> {
    /// Wraps a store behind the dispatcher with the default
    /// configuration: writes disabled, the stock trusted token.
    pub fn new(db_service: T) -> (r: MCPDatabaseServer<T>)
        ensures
            r.config.write_enabled == false,
            r.config.trusted_tokens.deep_view() =~= seq!["trusted_llm_token"@],
    {
        let mut trusted_tokens: Vec<String> = Vec::new();
        trusted_tokens.push("trusted_llm_token".to_owned());
        proof {
            assert(trusted_tokens.deep_view() =~= seq!["trusted_llm_token"@]);
        }
        MCPDatabaseServer {
            db_service,
            config: ServerConfig { write_enabled: false, trusted_tokens },
        }
    }

    /// Wraps a store with an explicit configuration.
    pub fn with_config(db_service: T, config: ServerConfig) -> (r: MCPDatabaseServer<T>)
        ensures
            r.config.write_enabled == config.write_enabled,
            r.config.trusted_tokens == config.trusted_tokens,
    {
        MCPDatabaseServer { db_service, config }
    }

    /// Executes a free-text query: parse, search the parsed collection,
    /// render the bounded results.
    pub fn query(&self, query: String) -> (r: Result<String, String>)
        ensures
            match r {
                Ok(content) => content@ == query_reply(self.db_service.novels_view(),
                    self.db_service.chapters_view(), self.db_service.characters_view(),
                    self.db_service.qa_view(), query@),
                Err(m) => has_prefix(m@, "Database error: "@),
            },
    {
        let search_params = QueryParser::parse_natural_language_query(query.as_str());
        proof {
            lemma_collection_cases(query@);
        }
        if str_eq(search_params.collection.as_str(), "novels") {
            match self.db_service.search_novels(&search_params) {
                Ok(resp) => {
                    let content = format_content_for_llm(&resp.data, &search_params);
                    Ok(content)
                },
                Err(e) => {
                    let mut m = String::new();
                    m.append("Database error: ");
                    let detail = store_error_message(&e);
                    m.append(detail.as_str());
                    proof {
                        lemma_concat_has_prefix("Database error: "@, detail@);
                        assert(m@ =~= "Database error: "@ + detail@);
                    }
                    Err(m)
                },
            }
        } else if str_eq(search_params.collection.as_str(), "chapters") {
            match self.db_service.search_chapters(&search_params) {
                Ok(resp) => {
                    let content = format_content_for_llm(&resp.data, &search_params);
                    Ok(content)
                },
                Err(e) => {
                    let mut m = String::new();
                    m.append("Database error: ");
                    let detail = store_error_message(&e);
                    m.append(detail.as_str());
                    proof {
                        lemma_concat_has_prefix("Database error: "@, detail@);
                        assert(m@ =~= "Database error: "@ + detail@);
                    }
                    Err(m)
                },
            }
        } else if str_eq(search_params.collection.as_str(), "characters") {
            match self.db_service.search_characters(&search_params) {
                Ok(resp) => {
                    let content = format_content_for_llm(&resp.data, &search_params);
                    Ok(content)
                },
                Err(e) => {
                    let mut m = String::new();
                    m.append("Database error: ");
                    let detail = store_error_message(&e);
                    m.append(detail.as_str());
                    proof {
                        lemma_concat_has_prefix("Database error: "@, detail@);
                        assert(m@ =~= "Database error: "@ + detail@);
                    }
                    Err(m)
                },
            }
        } else {
            assert(search_params.collection@ == "qa"@);
            match self.db_service.search_qa(&search_params) {
                Ok(resp) => {
                    let content = format_content_for_llm(&resp.data, &search_params);
                    Ok(content)
                },
                Err(e) => {
                    let mut m = String::new();
                    m.append("Database error: ");
                    let detail = store_error_message(&e);
                    m.append(detail.as_str());
                    proof {
                        lemma_concat_has_prefix("Database error: "@, detail@);
                        assert(m@ =~= "Database error: "@ + detail@);
                    }
                    Err(m)
                },
            }
        }
    }

    /// Fetches a single chapter's text by identifier.
    pub fn get_chapter_content(&self, chapter_id: String) -> (r: Result<String, String>)
        ensures
            match r {
                Ok(content) => ({
                    let cs = self.db_service.chapters_view();
                    &&& valid_object_id(chapter_id@)
                    &&& chapter_index(cs, chapter_id@) >= 0
                    &&& content@ == chapter_content_text(
                        cs[chapter_index(cs, chapter_id@)])
                }),
                Err(m) => ({
                    ||| ((!valid_object_id(chapter_id@) || chapter_index(
                        self.db_service.chapters_view(), chapter_id@) < 0)
                        && m@ == "Chapter with ID "@ + chapter_id@ + " not found"@)
                    ||| (valid_object_id(chapter_id@)
                        && has_prefix(m@, "Failed to retrieve chapter: "@))
                }),
            },
            (!valid_object_id(chapter_id@) || chapter_index(
                self.db_service.chapters_view(), chapter_id@) < 0) ==> r is Err,
    {
        match self.db_service.get_chapter_content(chapter_id.as_str()) {
            Ok(Some(content)) => Ok(content),
            Ok(None) => {
                let mut m = String::new();
                m.append("Chapter with ID ");
                m.append(chapter_id.as_str());
                m.append(" not found");
                proof {
                    assert(m@ =~= "Chapter with ID "@ + chapter_id@ + " not found"@);
                }
                Err(m)
            },
            Err(e) => {
                let mut m = String::new();
                m.append("Failed to retrieve chapter: ");
                let detail = store_error_message(&e);
                m.append(detail.as_str());
                proof {
                    lemma_concat_has_prefix("Failed to retrieve chapter: "@, detail@);
                    assert(m@ =~= "Failed to retrieve chapter: "@ + detail@);
                }
                Err(m)
            },
        }
    }

    /// Fetches and renders a single character's details by identifier.
    pub fn get_character_details(&self, character_id: String)
        -> (r: Result<String, String>)
        ensures
            match r {
                Ok(content) => ({
                    let cs = self.db_service.characters_view();
                    &&& valid_object_id(character_id@)
                    &&& character_index(cs, character_id@) >= 0
                    &&& content@ == character_details_text(
                        cs[character_index(cs, character_id@)])
                }),
                Err(m) => ({
                    ||| ((!valid_object_id(character_id@) || character_index(
                        self.db_service.characters_view(), character_id@) < 0)
                        && m@ == "Character with ID "@ + character_id@ + " not found"@)
                    ||| (valid_object_id(character_id@)
                        && has_prefix(m@, "Failed to retrieve character: "@))
                }),
            },
            (!valid_object_id(character_id@) || character_index(
                self.db_service.characters_view(), character_id@) < 0) ==> r is Err,
    {
        match self.db_service.get_character_details(character_id.as_str()) {
            Ok(Some(character)) => {
                let content = format_character_details(&character);
                Ok(content)
            },
            Ok(None) => {
                let mut m = String::new();
                m.append("Character with ID ");
                m.append(character_id.as_str());
                m.append(" not found");
                proof {
                    assert(m@ =~= "Character with ID "@ + character_id@ + " not found"@);
                }
                Err(m)
            },
            Err(e) => {
                let mut m = String::new();
                m.append("Failed to retrieve character: ");
                let detail = store_error_message(&e);
                m.append(detail.as_str());
                proof {
                    lemma_concat_has_prefix("Failed to retrieve character: "@, detail@);
                    assert(m@ =~= "Failed to retrieve character: "@ + detail@);
                }
                Err(m)
            },
        }
    }

    /// Pattern search over questions and answers, rendered as
    /// question/answer pairs.
    pub fn query_qa_regex(&self, regex_pattern: String) -> (r: Result<String, String>)
        ensures
            match r {
                Ok(content) => crate::regex_match::regex_valid_ci(regex_pattern@)
                    && content@ == format_qa_text(filter_qa_regex(
                        self.db_service.qa_view(), regex_pattern@)),
                Err(m) => has_prefix(m@, "Failed to search Q&A entries: "@),
            },
    {
        match self.db_service.search_qa_by_regex(regex_pattern.as_str()) {
            Ok(entries) => {
                let formatted = format_qa(&entries);
                Ok(formatted)
            },
            Err(e) => {
                let mut m = String::new();
                m.append("Failed to search Q&A entries: ");
                let detail = store_error_message(&e);
                m.append(detail.as_str());
                proof {
                    lemma_concat_has_prefix("Failed to search Q&A entries: "@, detail@);
                    assert(m@ =~= "Failed to search Q&A entries: "@ + detail@);
                }
                Err(m)
            },
        }
    }

    /// Pattern search over chapters, rendered as chapter blocks.
    pub fn query_chapter_regex(&self, regex_pattern: String) -> (r: Result<String, String>)
        ensures
            match r {
                Ok(content) => crate::regex_match::regex_valid_ci(regex_pattern@)
                    && content@ == format_chapters_text(filter_chapters_regex(
                        self.db_service.chapters_view(), regex_pattern@)),
                Err(m) => has_prefix(m@, "Failed to search chapters: "@),
            },
    {
        match self.db_service.search_chapters_by_regex(regex_pattern.as_str()) {
            Ok(entries) => {
                let formatted = format_chapters(&entries);
                Ok(formatted)
            },
            Err(e) => {
                let mut m = String::new();
                m.append("Failed to search chapters: ");
                let detail = store_error_message(&e);
                m.append(detail.as_str());
                proof {
                    lemma_concat_has_prefix("Failed to search chapters: "@, detail@);
                    assert(m@ =~= "Failed to search chapters: "@ + detail@);
                }
                Err(m)
            },
        }
    }

    /// Pattern search over characters, rendered as character blocks.
    pub fn query_character_regex(&self, regex_pattern: String)
        -> (r: Result<String, String>)
        ensures
            match r {
                Ok(content) => crate::regex_match::regex_valid_ci(regex_pattern@)
                    && content@ == format_characters_text(filter_characters_regex(
                        self.db_service.characters_view(), regex_pattern@)),
                Err(m) => has_prefix(m@, "Failed to search characters: "@),
            },
    {
        match self.db_service.search_characters_by_regex(regex_pattern.as_str()) {
            Ok(entries) => {
                let formatted = format_characters(&entries);
                Ok(formatted)
            },
            Err(e) => {
                let mut m = String::new();
                m.append("Failed to search characters: ");
                let detail = store_error_message(&e);
                m.append(detail.as_str());
                proof {
                    lemma_concat_has_prefix("Failed to search characters: "@, detail@);
                    assert(m@ =~= "Failed to search characters: "@ + detail@);
                }
                Err(m)
            },
        }
    }

    /// Replaces a chapter's summary behind the authentication gate.
    /// Success is never silent: it implies the chapter existed and its
    /// summary now reads as supplied.
    pub fn update_chapter_summary(&mut self, chapter_id: String, summary: String,
        auth_token: String) -> (r: Result<String, String>)
        ensures
            final(self).config == old(self).config,
            match r {
                Ok(m) => ({
                    let cs = old(self).db_service.chapters_view();
                    let i = chapter_index(cs, chapter_id@);
                    &&& token_trusted(auth_token@,
                        old(self).config.trusted_tokens.deep_view())
                    &&& m@ == "Chapter summary updated successfully"@
                    &&& valid_object_id(chapter_id@)
                    &&& i >= 0
                    &&& final(self).db_service.chapters_view() == cs.update(i, (ChapterV {
                        summary: summary@,
                        ..cs[i]
                    }))
                    &&& final(self).db_service.novels_view()
                        == old(self).db_service.novels_view()
                    &&& final(self).db_service.characters_view()
                        == old(self).db_service.characters_view()
                    &&& final(self).db_service.qa_view() == old(self).db_service.qa_view()
                }),
                Err(m) => ({
                    &&& (!token_trusted(auth_token@,
                        old(self).config.trusted_tokens.deep_view()) ==> (
                        m@ == "Invalid or missing authentication token"@
                            && *final(self) == *old(self)))
                    &&& (token_trusted(auth_token@,
                        old(self).config.trusted_tokens.deep_view()) ==> (
                        has_prefix(m@, "Failed to update chapter summary: "@)
                            && final(self).db_service.novels_view()
                                == old(self).db_service.novels_view()
                            && final(self).db_service.chapters_view()
                                == old(self).db_service.chapters_view()
                            && final(self).db_service.characters_view()
                                == old(self).db_service.characters_view()
                            && final(self).db_service.qa_view()
                                == old(self).db_service.qa_view()))
                }),
            },
    {
        if !token_trusted_exec(auth_token.as_str(), &self.config.trusted_tokens) {
            return Err(unauthorized_error_message());
        }
        match self.db_service.update_chapter_summary(chapter_id.as_str(), summary.as_str()) {
            Ok(_) => Ok("Chapter summary updated successfully".to_owned()),
            Err(e) => {
                let mut m = String::new();
                m.append("Failed to update chapter summary: ");
                let detail = store_error_message(&e);
                m.append(detail.as_str());
                proof {
                    lemma_concat_has_prefix("Failed to update chapter summary: "@, detail@);
                    assert(m@ =~= "Failed to update chapter summary: "@ + detail@);
                }
                Err(m)
            },
        }
    }
}

/// The store operation a validated request calls for; transports that
/// drive an outside store themselves perform the operation and render
/// its outcome with the library's formatters.
pub enum RoutedAction {
    /// A notification: no operation, no response.
    NoResponse,
    /// A protocol failure with its error code.
    Reject { code: i32, message: String },
    /// Run the free-text query pipeline.
    RunQuery { query: String },
    /// Fetch one chapter's text.
    FetchChapter { chapter_id: String },
    /// Fetch one character's details.
    FetchCharacter { character_id: String },
    /// Pattern search over questions and answers.
    SearchQaPattern { pattern: String },
    /// Pattern search over chapters.
    SearchChapterPattern { pattern: String },
    /// Pattern search over characters.
    SearchCharacterPattern { pattern: String },
    /// The authenticated summary update.
    UpdateSummary { chapter_id: String, summary: String, auth_token: String },
    /// The capabilities listing.
    Capabilities,
    /// The prompts listing.
    Prompts,
    /// The handshake.
    Initialize,
    /// The initialized note, sent with an identifier.
    InitializedNote,
}

/// Validates and routes one request without executing it: the
/// envelope checks and the method table of the dispatcher, as a pure
/// decision.
pub fn route_request(req: &MCPRequest, write_enabled: bool) -> (r: RoutedAction)
    ensures
        ({
            let ps = req.params.entries.deep_view();
            let version_ok = req.jsonrpc@ == supported_version();
            let known = known_method(req.method@, write_enabled);
            match r {
                RoutedAction::NoResponse => req.id is None,
                RoutedAction::Reject { code, message } => req.id is Some && ({
                    ||| (code == ERROR_INVALID_REQUEST && !version_ok)
                    ||| (code == ERROR_METHOD_NOT_FOUND && version_ok && !known)
                    ||| (code == ERROR_INVALID_PARAMS && version_ok && known
                        && !required_params_ok(req.method@, ps))
                }),
                RoutedAction::RunQuery { query } => req.id is Some && version_ok
                    && req.method@ == "query"@ && param_str(ps, "query"@) == Some(query@),
                RoutedAction::FetchChapter { chapter_id } => req.id is Some && version_ok
                    && req.method@ == "get_chapter_content"@
                    && param_str(ps, "chapter_id"@) == Some(chapter_id@),
                RoutedAction::FetchCharacter { character_id } => req.id is Some
                    && version_ok && req.method@ == "get_character_details"@
                    && param_str(ps, "character_id"@) == Some(character_id@),
                RoutedAction::SearchQaPattern { pattern } => req.id is Some && version_ok
                    && req.method@ == "query_qa_regex"@
                    && param_str(ps, "regex_pattern"@) == Some(pattern@),
                RoutedAction::SearchChapterPattern { pattern } => req.id is Some
                    && version_ok && req.method@ == "query_chapter_regex"@
                    && param_str(ps, "regex_pattern"@) == Some(pattern@),
                RoutedAction::SearchCharacterPattern { pattern } => req.id is Some
                    && version_ok && req.method@ == "query_character_regex"@
                    && param_str(ps, "regex_pattern"@) == Some(pattern@),
                RoutedAction::UpdateSummary { chapter_id, summary, auth_token } => ({
                    &&& req.id is Some
                    &&& version_ok
                    &&& write_enabled
                    &&& req.method@ == "update_chapter_summary"@
                    &&& param_str(ps, "chapter_id"@) == Some(chapter_id@)
                    &&& param_str(ps, "summary"@) == Some(summary@)
                    &&& param_str(ps, "auth_token"@) == Some(auth_token@)
                }),
                RoutedAction::Capabilities => req.id is Some && version_ok
                    && req.method@ == "mcp.capabilities"@,
                RoutedAction::Prompts => req.id is Some && version_ok
                    && req.method@ == "mcp.prompts"@,
                RoutedAction::Initialize => req.id is Some && version_ok
                    && req.method@ == "initialize"@,
                RoutedAction::InitializedNote => req.id is Some && version_ok
                    && req.method@ == "notifications/initialized"@,
            }
        }),
        (req.id is None) <==> (r is NoResponse),
{
    if req.id.is_none() {
        return RoutedAction::NoResponse;
    }
    if !str_eq(req.jsonrpc.as_str(), "2.0") {
        return RoutedAction::Reject {
            code: ERROR_INVALID_REQUEST,
            message: "Invalid Request".to_owned(),
        };
    }
    let m = req.method.as_str();
    let ps = &req.params;
    if str_eq(m, "query") {
        match ps.get_str("query") {
            Some(q) => RoutedAction::RunQuery { query: q.clone() },
            None => RoutedAction::Reject {
                code: ERROR_INVALID_PARAMS,
                message: "Missing 'query' parameter".to_owned(),
            },
        }
    } else if str_eq(m, "get_chapter_content") {
        match ps.get_str("chapter_id") {
            Some(cid) => RoutedAction::FetchChapter { chapter_id: cid.clone() },
            None => RoutedAction::Reject {
                code: ERROR_INVALID_PARAMS,
                message: "Missing 'chapter_id' parameter".to_owned(),
            },
        }
    } else if str_eq(m, "get_character_details") {
        match ps.get_str("character_id") {
            Some(cid) => RoutedAction::FetchCharacter { character_id: cid.clone() },
            None => RoutedAction::Reject {
                code: ERROR_INVALID_PARAMS,
                message: "Missing 'character_id' parameter".to_owned(),
            },
        }
    } else if str_eq(m, "query_qa_regex") {
        match ps.get_str("regex_pattern") {
            Some(p) => RoutedAction::SearchQaPattern { pattern: p.clone() },
            None => RoutedAction::Reject {
                code: ERROR_INVALID_PARAMS,
                message: "Missing 'regex_pattern' parameter".to_owned(),
            },
        }
    } else if str_eq(m, "query_chapter_regex") {
        match ps.get_str("regex_pattern") {
            Some(p) => RoutedAction::SearchChapterPattern { pattern: p.clone() },
            None => RoutedAction::Reject {
                code: ERROR_INVALID_PARAMS,
                message: "Missing 'regex_pattern' parameter".to_owned(),
            },
        }
    } else if str_eq(m, "query_character_regex") {
        match ps.get_str("regex_pattern") {
            Some(p) => RoutedAction::SearchCharacterPattern { pattern: p.clone() },
            None => RoutedAction::Reject {
                code: ERROR_INVALID_PARAMS,
                message: "Missing 'regex_pattern' parameter".to_owned(),
            },
        }
    } else if str_eq(m, "update_chapter_summary") {
        if !write_enabled {
            proof {
                reveal_strlit("update_chapter_summary");
                reveal_strlit("mcp.capabilities");
                reveal_strlit("mcp.prompts");
                reveal_strlit("initialize");
                reveal_strlit("notifications/initialized");
                assert(req.method@.len() == 22);
                assert("mcp.capabilities"@.len() == 16);
                assert(req.method@ != "mcp.capabilities"@);
                assert(req.method@ != "mcp.prompts"@);
                assert(req.method@ != "initialize"@);
                assert(req.method@ != "notifications/initialized"@);
                assert(!known_method(req.method@, write_enabled));
            }
            return RoutedAction::Reject {
                code: ERROR_METHOD_NOT_FOUND,
                message: "Method not found".to_owned(),
            };
        }
        let chapter_id = match ps.get_str("chapter_id") {
            Some(s) => s.clone(),
            None => {
                return RoutedAction::Reject {
                    code: ERROR_INVALID_PARAMS,
                    message: "Missing 'chapter_id' parameter".to_owned(),
                };
            },
        };
        let summary = match ps.get_str("summary") {
            Some(s) => s.clone(),
            None => {
                return RoutedAction::Reject {
                    code: ERROR_INVALID_PARAMS,
                    message: "Missing 'summary' parameter".to_owned(),
                };
            },
        };
        let auth_token = match ps.get_str("auth_token") {
            Some(s) => s.clone(),
            None => {
                return RoutedAction::Reject {
                    code: ERROR_INVALID_PARAMS,
                    message: "Missing 'auth_token' parameter".to_owned(),
                };
            },
        };
        RoutedAction::UpdateSummary { chapter_id, summary, auth_token }
    } else if str_eq(m, "mcp.capabilities") {
        RoutedAction::Capabilities
    } else if str_eq(m, "mcp.prompts") {
        RoutedAction::Prompts
    } else if str_eq(m, "initialize") {
        RoutedAction::Initialize
    } else if str_eq(m, "notifications/initialized") {
        RoutedAction::InitializedNote
    } else {
        RoutedAction::Reject {
            code: ERROR_METHOD_NOT_FOUND,
            message: "Method not found".to_owned(),
        }
    }
}

/// The collection a search specification targets, for transports that
/// run the store search themselves; `None` for a name outside the
/// four collections.
pub enum CollectionKind {
    Novels,
    Chapters,
    Characters,
    Qa,
}

/// Reads the collection name of a search specification.
pub fn collection_kind(params: &crate::models::SearchParams) -> (r: Option<CollectionKind>)
    ensures
        match r {
            Some(CollectionKind::Novels) => params.collection@ == "novels"@,
            Some(CollectionKind::Chapters) => params.collection@ == "chapters"@,
            Some(CollectionKind::Characters) => params.collection@ == "characters"@,
            Some(CollectionKind::Qa) => params.collection@ == "qa"@,
            None => params.collection@ != "novels"@ && params.collection@ != "chapters"@
                && params.collection@ != "characters"@ && params.collection@ != "qa"@,
        },
{
    let c = params.collection.as_str();
    if str_eq(c, "novels") {
        Some(CollectionKind::Novels)
    } else if str_eq(c, "chapters") {
        Some(CollectionKind::Chapters)
    } else if str_eq(c, "characters") {
        Some(CollectionKind::Characters)
    } else if str_eq(c, "qa") {
        Some(CollectionKind::Qa)
    } else {
        None
    }
}

/// Parameters of the free-text query tool.
#[derive(Debug)]
pub struct QueryRequest {
    pub query: String,
    pub options: Option<MCPParams>,
}

/// Parameters of the pattern-search tools.
#[derive(Clone, Debug)]
pub struct RegexQueryRequest {
    pub regex_pattern: String,
}

/// Parameters of the single-chapter fetch.
#[derive(Clone, Debug)]
pub struct ChapterContentRequest {
    pub chapter_id: String,
}

/// Parameters of the single-character fetch.
#[derive(Clone, Debug)]
pub struct CharacterDetailsRequest {
    pub character_id: String,
}

/// Parameters of the mutating summary update.
#[derive(Clone, Debug)]
pub struct UpdateChapterSummaryRequest {
    pub chapter_id: String,
    pub summary: String,
    pub auth_token: String,
}

/// Server identity and instructions reported by the handshake.
pub struct ServerInfo {
    pub name: String,
    pub version: String,
    pub protocol_version: String,
    pub instructions: String,
}

/// A prompt the server offers.
pub struct Prompt {
    pub name: String,
    pub description: String,
}

/// One message of a prompt.
pub struct PromptMessage {
    pub role: String,
    pub content: String,
}

/// A prompt with its example messages.
pub struct PromptResult {
    pub description: String,
    pub messages: Vec<PromptMessage>,
}

/// A routable tool: its name, description and required parameters.
pub struct ToolInfo {
    pub name: String,
    pub description: String,
    pub required_params: Vec<String>,
}

/// The capabilities listing, naming every routable tool.
pub open spec fn capabilities_text(write_enabled: bool) -> Seq<char> {
    "Tools: query, get_chapter_content, get_character_details, query_qa_regex, query_chapter_regex, query_character_regex"@
        + if write_enabled {
            ", update_chapter_summary"@
        } else {
            Seq::<char>::empty()
        }
}

/// The prompts listing.
pub open spec fn prompts_text() -> Seq<char> {
    "Prompts: search_novel, character_details, chapter_summary"@
}

/// The instructions the handshake reports.
pub open spec fn server_instructions() -> Seq<char> {
    "MongoDB MCP Server providing access to data with optimizations for small context windows (3k tokens)."@
}

impl<T: DatabaseService> MCPDatabaseServer<T> {
    /// Reports the server identity and instructions.
    pub fn get_info(&self) -> (r: ServerInfo)
        ensures
            r.name@ == "mcp_database"@,
            r.version@ == "0.1.0"@,
            r.protocol_version@ == "2024-11-05"@,
            r.instructions@ == server_instructions(),
    {
        ServerInfo {
            name: "mcp_database".to_owned(),
            version: "0.1.0".to_owned(),
            protocol_version: "2024-11-05".to_owned(),
            instructions:
                "MongoDB MCP Server providing access to data with optimizations for small context windows (3k tokens)."
                .to_owned(),
        }
    }

    /// Lists the prompts this server offers.
    pub fn list_prompts(&self) -> (r: Vec<Prompt>)
        ensures
            r@.len() == 3,
            r@[0].name@ == "search_novel"@,
            r@[0].description@ == "Search for novels matching specific criteria"@,
            r@[1].name@ == "character_details"@,
            r@[1].description@ == "Get detailed information about a character"@,
            r@[2].name@ == "chapter_summary"@,
            r@[2].description@ == "Get a summary of a specific chapter"@,
    {
        let mut r: Vec<Prompt> = Vec::new();
        r.push(Prompt {
            name: "search_novel".to_owned(),
            description: "Search for novels matching specific criteria".to_owned(),
        });
        r.push(Prompt {
            name: "character_details".to_owned(),
            description: "Get detailed information about a character".to_owned(),
        });
        r.push(Prompt {
            name: "chapter_summary".to_owned(),
            description: "Get a summary of a specific chapter".to_owned(),
        });
        r
    }

    /// Returns a specific prompt with its example message; an unknown
    /// name is an invalid-parameter failure.
    pub fn get_prompt(&self, name: &str) -> (r: Result<PromptResult, MpcError>)
        ensures
            match r {
                Ok(p) => ({
                    ||| (name@ == "search_novel"@ && p.messages@.len() == 1
                        && p.messages@[0].content@
                            == "Find novels about magic and dragons"@)
                    ||| (name@ == "character_details"@ && p.messages@.len() == 1
                        && p.messages@[0].content@
                            == "Tell me about the protagonist of the novel \"Dragon's Journey\""@)
                    ||| (name@ == "chapter_summary"@ && p.messages@.len() == 1
                        && p.messages@[0].content@
                            == "Summarize chapter 5 of \"The Lost Kingdom\""@)
                }),
                Err(e) => e.code == ERROR_INVALID_PARAMS && name@ != "search_novel"@
                    && name@ != "character_details"@ && name@ != "chapter_summary"@,
            },
    {
        if str_eq(name, "search_novel") {
            let mut messages: Vec<PromptMessage> = Vec::new();
            messages.push(PromptMessage {
                role: "user".to_owned(),
                content: "Find novels about magic and dragons".to_owned(),
            });
            Ok(PromptResult {
                description: "Search for novels matching specific criteria".to_owned(),
                messages,
            })
        } else if str_eq(name, "character_details") {
            let mut messages: Vec<PromptMessage> = Vec::new();
            messages.push(PromptMessage {
                role: "user".to_owned(),
                content: "Tell me about the protagonist of the novel \"Dragon's Journey\""
                    .to_owned(),
            });
            Ok(PromptResult {
                description: "Get detailed information about a character".to_owned(),
                messages,
            })
        } else if str_eq(name, "chapter_summary") {
            let mut messages: Vec<PromptMessage> = Vec::new();
            messages.push(PromptMessage {
                role: "user".to_owned(),
                content: "Summarize chapter 5 of \"The Lost Kingdom\"".to_owned(),
            });
            Ok(PromptResult {
                description: "Get a summary of a specific chapter".to_owned(),
                messages,
            })
        } else {
            Err(MpcError::new(ERROR_INVALID_PARAMS, "Unknown method".to_owned()))
        }
    }

    /// Lists the read-path tools with their required parameters.
    pub fn list_tools(&self) -> (r: Vec<ToolInfo>)
        ensures
            r@.len() == 6,
            r@[0].name@ == "query_database"@,
            r@[0].required_params.deep_view() =~= seq!["query"@],
            r@[1].name@ == "get_chapter_content"@,
            r@[1].required_params.deep_view() =~= seq!["chapter_id"@],
            r@[2].name@ == "get_character_details"@,
            r@[2].required_params.deep_view() =~= seq!["character_id"@],
            r@[3].name@ == "query_qa_regex"@,
            r@[3].required_params.deep_view() =~= seq!["regex_pattern"@],
            r@[4].name@ == "query_chapter_regex"@,
            r@[4].required_params.deep_view() =~= seq!["regex_pattern"@],
            r@[5].name@ == "query_character_regex"@,
            r@[5].required_params.deep_view() =~= seq!["regex_pattern"@],
    {
        let mut r: Vec<ToolInfo> = Vec::new();
        let mut p0: Vec<String> = Vec::new();
        p0.push("query".to_owned());
        proof {
            assert(p0.deep_view() =~= seq!["query"@]);
        }
        r.push(ToolInfo {
            name: "query_database".to_owned(),
            description: "Query the database using natural language".to_owned(),
            required_params: p0,
        });
        let mut p1: Vec<String> = Vec::new();
        p1.push("chapter_id".to_owned());
        proof {
            assert(p1.deep_view() =~= seq!["chapter_id"@]);
        }
        r.push(ToolInfo {
            name: "get_chapter_content".to_owned(),
            description: "Retrieve the content of a specific chapter".to_owned(),
            required_params: p1,
        });
        let mut p2: Vec<String> = Vec::new();
        p2.push("character_id".to_owned());
        proof {
            assert(p2.deep_view() =~= seq!["character_id"@]);
        }
        r.push(ToolInfo {
            name: "get_character_details".to_owned(),
            description: "Retrieve detailed information about a character".to_owned(),
            required_params: p2,
        });
        let mut p3: Vec<String> = Vec::new();
        p3.push("regex_pattern".to_owned());
        proof {
            assert(p3.deep_view() =~= seq!["regex_pattern"@]);
        }
        r.push(ToolInfo {
            name: "query_qa_regex".to_owned(),
            description: "Search Q&A entries using a regex pattern".to_owned(),
            required_params: p3,
        });
        let mut p4: Vec<String> = Vec::new();
        p4.push("regex_pattern".to_owned());
        proof {
            assert(p4.deep_view() =~= seq!["regex_pattern"@]);
        }
        r.push(ToolInfo {
            name: "query_chapter_regex".to_owned(),
            description: "Search chapters using a regex pattern".to_owned(),
            required_params: p4,
        });
        let mut p5: Vec<String> = Vec::new();
        p5.push("regex_pattern".to_owned());
        proof {
            assert(p5.deep_view() =~= seq!["regex_pattern"@]);
        }
        r.push(ToolInfo {
            name: "query_character_regex".to_owned(),
            description: "Search characters using a regex pattern".to_owned(),
            required_params: p5,
        });
        r
    }

    /// Routes the free-text query method; a store failure maps to the
    /// internal error code.
    pub fn handle_query(&self, query: &str) -> (r: Result<MCPResult, MpcError>)
        ensures
            match r {
                Ok(res) => res.content@ == query_reply(self.db_service.novels_view(),
                    self.db_service.chapters_view(), self.db_service.characters_view(),
                    self.db_service.qa_view(), query@),
                Err(e) => e.code == ERROR_INTERNAL
                    && has_prefix(e.message@, "Database error: "@),
            },
    {
        match self.query(query.to_owned()) {
            Ok(content) => Ok(MCPResult { content, metadata: None }),
            Err(m) => Err(MpcError::new(ERROR_INTERNAL, m)),
        }
    }

    /// Routes the single-chapter fetch; a missing record or malformed
    /// identifier is an invalid-parameter failure.
    pub fn handle_chapter_content(&self, chapter_id: &str) -> (r: Result<MCPResult, MpcError>)
        ensures
            match r {
                Ok(res) => ({
                    let cs = self.db_service.chapters_view();
                    &&& valid_object_id(chapter_id@)
                    &&& chapter_index(cs, chapter_id@) >= 0
                    &&& res.content@ == chapter_content_text(
                        cs[chapter_index(cs, chapter_id@)])
                }),
                Err(e) => ({
                    ||| (e.code == ERROR_INVALID_PARAMS && (!valid_object_id(chapter_id@)
                        || chapter_index(self.db_service.chapters_view(),
                            chapter_id@) < 0))
                    ||| (e.code == ERROR_INTERNAL && valid_object_id(chapter_id@))
                }),
            },
    {
        match self.db_service.get_chapter_content(chapter_id) {
            Ok(Some(content)) => Ok(MCPResult { content, metadata: None }),
            Ok(None) => Err(MpcError::new(ERROR_INVALID_PARAMS,
                "Chapter not found".to_owned())),
            Err(e) => Err(MpcError::new(ERROR_INTERNAL, store_error_message(&e))),
        }
    }

    /// Routes the single-character fetch; a missing record or malformed
    /// identifier is an invalid-parameter failure.
    pub fn handle_character_details(&self, character_id: &str)
        -> (r: Result<MCPResult, MpcError>)
        ensures
            match r {
                Ok(res) => ({
                    let cs = self.db_service.characters_view();
                    &&& valid_object_id(character_id@)
                    &&& character_index(cs, character_id@) >= 0
                    &&& res.content@ == character_details_text(
                        cs[character_index(cs, character_id@)])
                }),
                Err(e) => ({
                    ||| (e.code == ERROR_INVALID_PARAMS
                        && (!valid_object_id(character_id@) || character_index(
                            self.db_service.characters_view(), character_id@) < 0))
                    ||| (e.code == ERROR_INTERNAL && valid_object_id(character_id@))
                }),
            },
    {
        match self.db_service.get_character_details(character_id) {
            Ok(Some(character)) => {
                let content = format_character_details(&character);
                Ok(MCPResult { content, metadata: None })
            },
            Ok(None) => Err(MpcError::new(ERROR_INVALID_PARAMS,
                "Character not found".to_owned())),
            Err(e) => Err(MpcError::new(ERROR_INTERNAL, store_error_message(&e))),
        }
    }

    /// Routes the question/answer pattern search.
    pub fn handle_qa_regex(&self, regex: &str) -> (r: Result<MCPResult, MpcError>)
        ensures
            match r {
                Ok(res) => crate::regex_match::regex_valid_ci(regex@)
                    && res.content@ == format_qa_text(filter_qa_regex(
                        self.db_service.qa_view(), regex@)),
                Err(e) => e.code == ERROR_INTERNAL
                    && has_prefix(e.message@, "Failed to search Q&A entries: "@),
            },
    {
        match self.query_qa_regex(regex.to_owned()) {
            Ok(content) => Ok(MCPResult { content, metadata: None }),
            Err(m) => Err(MpcError::new(ERROR_INTERNAL, m)),
        }
    }

    /// Routes the chapter pattern search.
    pub fn handle_chapter_regex(&self, regex: &str) -> (r: Result<MCPResult, MpcError>)
        ensures
            match r {
                Ok(res) => crate::regex_match::regex_valid_ci(regex@)
                    && res.content@ == format_chapters_text(filter_chapters_regex(
                        self.db_service.chapters_view(), regex@)),
                Err(e) => e.code == ERROR_INTERNAL
                    && has_prefix(e.message@, "Failed to search chapters: "@),
            },
    {
        match self.query_chapter_regex(regex.to_owned()) {
            Ok(content) => Ok(MCPResult { content, metadata: None }),
            Err(m) => Err(MpcError::new(ERROR_INTERNAL, m)),
        }
    }

    /// Routes the character pattern search.
    pub fn handle_character_regex(&self, regex: &str) -> (r: Result<MCPResult, MpcError>)
        ensures
            match r {
                Ok(res) => crate::regex_match::regex_valid_ci(regex@)
                    && res.content@ == format_characters_text(filter_characters_regex(
                        self.db_service.characters_view(), regex@)),
                Err(e) => e.code == ERROR_INTERNAL
                    && has_prefix(e.message@, "Failed to search characters: "@),
            },
    {
        match self.query_character_regex(regex.to_owned()) {
            Ok(content) => Ok(MCPResult { content, metadata: None }),
            Err(m) => Err(MpcError::new(ERROR_INTERNAL, m)),
        }
    }

    /// Routes the mutating method through the write flag and the
    /// authentication gate; disabled write access looks exactly like an
    /// unknown method.
    pub fn handle_chapter_summary_update(&mut self, chapter_id: &str, summary: &str,
        auth_token: &str) -> (r: Result<MCPResult, MpcError>)
        ensures
            final(self).config == old(self).config,
            match r {
                Ok(res) => ({
                    let cs = old(self).db_service.chapters_view();
                    let i = chapter_index(cs, chapter_id@);
                    &&& old(self).config.write_enabled
                    &&& token_trusted(auth_token@,
                        old(self).config.trusted_tokens.deep_view())
                    &&& valid_object_id(chapter_id@)
                    &&& i >= 0
                    &&& res.content@ == "Chapter summary updated successfully"@
                    &&& final(self).db_service.chapters_view() == cs.update(i, (ChapterV {
                        summary: summary@,
                        ..cs[i]
                    }))
                }),
                Err(e) => ({
                    &&& (!old(self).config.write_enabled
                        ==> e.code == ERROR_METHOD_NOT_FOUND)
                    &&& (old(self).config.write_enabled && !token_trusted(auth_token@,
                        old(self).config.trusted_tokens.deep_view())
                        ==> e.code == ERROR_UNAUTHORIZED)
                    &&& (old(self).config.write_enabled && token_trusted(auth_token@,
                        old(self).config.trusted_tokens.deep_view()) ==> ({
                        ||| (e.code == ERROR_INVALID_PARAMS && (
                            !valid_object_id(chapter_id@)
                            || chapter_index(old(self).db_service.chapters_view(),
                                chapter_id@) < 0))
                        ||| e.code == ERROR_INTERNAL
                    }))
                    &&& final(self).db_service.novels_view()
                        == old(self).db_service.novels_view()
                    &&& final(self).db_service.chapters_view()
                        == old(self).db_service.chapters_view()
                    &&& final(self).db_service.characters_view()
                        == old(self).db_service.characters_view()
                    &&& final(self).db_service.qa_view()
                        == old(self).db_service.qa_view()
                }),
            },
    {
        if !self.config.write_enabled {
            return Err(MpcError::new(ERROR_METHOD_NOT_FOUND, "Method not found".to_owned()));
        }
        if !token_trusted_exec(auth_token, &self.config.trusted_tokens) {
            return Err(MpcError::new(ERROR_UNAUTHORIZED, unauthorized_error_message()));
        }
        match self.db_service.update_chapter_summary(chapter_id, summary) {
            Ok(_) => Ok(MCPResult {
                content: "Chapter summary updated successfully".to_owned(),
                metadata: None,
            }),
            Err(e) => match e {
                StoreError::NotFound => Err(MpcError::new(ERROR_INVALID_PARAMS,
                    "Chapter not found".to_owned())),
                StoreError::InvalidId => Err(MpcError::new(ERROR_INVALID_PARAMS,
                    "Invalid chapter identifier".to_owned())),
                StoreError::Backend(m) => Err(MpcError::new(ERROR_INTERNAL, m)),
            },
        }
    }

    /// Validates and routes one request.  A notification — a request
    /// without an identifier — produces no response, whatever its
    /// method or validity; every other request gets exactly one of a
    /// result or an error, under the fixed code table.
    pub fn handle_request(&mut self, req: &MCPRequest) -> (r: Option<MCPResponse>)
        ensures
            final(self).config == old(self).config,
            (req.id is None) <==> (r is None),
            (req.id is None) ==> *final(self) == *old(self),
            match r {
                Some(resp) => ({
                    let ps = req.params.entries.deep_view();
                    let version_ok = req.jsonrpc@ == supported_version();
                    let known = known_method(req.method@, old(self).config.write_enabled);
                    &&& response_well_formed(resp)
                    &&& resp.jsonrpc@ == supported_version()
                    &&& opt_view(resp.id) == opt_view(req.id)
                    &&& (!version_ok ==> err_code(resp, ERROR_INVALID_REQUEST))
                    &&& (err_code(resp, ERROR_INVALID_REQUEST) ==> !version_ok)
                    &&& (version_ok && !known ==> err_code(resp, ERROR_METHOD_NOT_FOUND))
                    &&& (err_code(resp, ERROR_METHOD_NOT_FOUND) ==> version_ok && !known)
                    &&& (version_ok && known && !required_params_ok(req.method@, ps)
                        ==> err_code(resp, ERROR_INVALID_PARAMS))
                    &&& (err_code(resp, ERROR_UNAUTHORIZED)
                        ==> req.method@ == "update_chapter_summary"@ && !auth_ok(ps,
                            old(self).config.trusted_tokens.deep_view()))
                    &&& (version_ok && req.method@ == "update_chapter_summary"@
                        && old(self).config.write_enabled
                        && required_params_ok(req.method@, ps)
                        && !auth_ok(ps, old(self).config.trusted_tokens.deep_view())
                        ==> err_code(resp, ERROR_UNAUTHORIZED))
                    &&& (version_ok && req.method@ == "mcp.capabilities"@
                        ==> (match resp.result {
                            Some(res) => res.content@ == capabilities_text(
                                old(self).config.write_enabled),
                            None => false,
                        }))
                    &&& (version_ok && req.method@ == "mcp.prompts"@
                        ==> (match resp.result {
                            Some(res) => res.content@ == prompts_text(),
                            None => false,
                        }))
                    &&& (version_ok && req.method@ == "initialize"@
                        ==> (match resp.result {
                            Some(res) => res.content@ == server_instructions(),
                            None => false,
                        }))
                    &&& (version_ok && req.method@ == "notifications/initialized"@
                        ==> (match resp.result {
                            Some(res) => res.content@.len() == 0,
                            None => false,
                        }))
                    &&& (resp.result is Some ==> version_ok && known
                        && required_params_ok(req.method@, ps))
                }),
                None => true,
            },
            req.method@ != "update_chapter_summary"@ ==> *final(self) == *old(self),
    {
        if req.id.is_none() {
            return None;
        }
        let id = &req.id;
        if !str_eq(req.jsonrpc.as_str(), "2.0") {
            return Some(error_response(id, ERROR_INVALID_REQUEST,
                "Invalid Request".to_owned()));
        }
        let m = req.method.as_str();
        let ps = &req.params;
        proof {
            reveal_strlit("query");
            reveal_strlit("get_chapter_content");
            reveal_strlit("get_character_details");
            reveal_strlit("query_qa_regex");
            reveal_strlit("query_chapter_regex");
            reveal_strlit("query_character_regex");
            reveal_strlit("update_chapter_summary");
            reveal_strlit("mcp.capabilities");
            reveal_strlit("mcp.prompts");
            reveal_strlit("initialize");
            reveal_strlit("notifications/initialized");
            assert("query"@.len() == 5);
            assert("get_chapter_content"@.len() == 19);
            assert("get_character_details"@.len() == 21);
            assert("query_qa_regex"@.len() == 14);
            assert("query_chapter_regex"@.len() == 19);
            assert("query_character_regex"@.len() == 21);
            assert("update_chapter_summary"@.len() == 22);
            assert("mcp.capabilities"@.len() == 16);
            assert("mcp.prompts"@.len() == 11);
            assert("initialize"@.len() == 10);
            assert("notifications/initialized"@.len() == 25);
        }
        if str_eq(m, "query") {
            match ps.get_str("query") {
                Some(q) => match self.handle_query(q.as_str()) {
                    Ok(res) => Some(success_response(id, res.content)),
                    Err(e) => Some(error_response(id, e.code, e.message)),
                },
                None => Some(error_response(id, ERROR_INVALID_PARAMS,
                    "Missing 'query' parameter".to_owned())),
            }
        } else if str_eq(m, "get_chapter_content") {
            match ps.get_str("chapter_id") {
                Some(cid) => match self.handle_chapter_content(cid.as_str()) {
                    Ok(res) => Some(success_response(id, res.content)),
                    Err(e) => Some(error_response(id, e.code, e.message)),
                },
                None => Some(error_response(id, ERROR_INVALID_PARAMS,
                    "Missing 'chapter_id' parameter".to_owned())),
            }
        } else if str_eq(m, "get_character_details") {
            match ps.get_str("character_id") {
                Some(cid) => match self.handle_character_details(cid.as_str()) {
                    Ok(res) => Some(success_response(id, res.content)),
                    Err(e) => Some(error_response(id, e.code, e.message)),
                },
                None => Some(error_response(id, ERROR_INVALID_PARAMS,
                    "Missing 'character_id' parameter".to_owned())),
            }
        } else if str_eq(m, "query_qa_regex") {
            match ps.get_str("regex_pattern") {
                Some(pat) => match self.handle_qa_regex(pat.as_str()) {
                    Ok(res) => Some(success_response(id, res.content)),
                    Err(e) => Some(error_response(id, e.code, e.message)),
                },
                None => Some(error_response(id, ERROR_INVALID_PARAMS,
                    "Missing 'regex_pattern' parameter".to_owned())),
            }
        } else if str_eq(m, "query_chapter_regex") {
            match ps.get_str("regex_pattern") {
                Some(pat) => match self.handle_chapter_regex(pat.as_str()) {
                    Ok(res) => Some(success_response(id, res.content)),
                    Err(e) => Some(error_response(id, e.code, e.message)),
                },
                None => Some(error_response(id, ERROR_INVALID_PARAMS,
                    "Missing 'regex_pattern' parameter".to_owned())),
            }
        } else if str_eq(m, "query_character_regex") {
            match ps.get_str("regex_pattern") {
                Some(pat) => match self.handle_character_regex(pat.as_str()) {
                    Ok(res) => Some(success_response(id, res.content)),
                    Err(e) => Some(error_response(id, e.code, e.message)),
                },
                None => Some(error_response(id, ERROR_INVALID_PARAMS,
                    "Missing 'regex_pattern' parameter".to_owned())),
            }
        } else if str_eq(m, "update_chapter_summary") {
            if !self.config.write_enabled {
                proof {
                    assert(!known_method(req.method@, self.config.write_enabled));
                }
                return Some(error_response(id, ERROR_METHOD_NOT_FOUND,
                    "Method not found".to_owned()));
            }
            let cid = match ps.get_str("chapter_id") {
                Some(s) => s.clone(),
                None => {
                    return Some(error_response(id, ERROR_INVALID_PARAMS,
                        "Missing 'chapter_id' parameter".to_owned()));
                },
            };
            let summary = match ps.get_str("summary") {
                Some(s) => s.clone(),
                None => {
                    return Some(error_response(id, ERROR_INVALID_PARAMS,
                        "Missing 'summary' parameter".to_owned()));
                },
            };
            let token = match ps.get_str("auth_token") {
                Some(s) => s.clone(),
                None => {
                    return Some(error_response(id, ERROR_INVALID_PARAMS,
                        "Missing 'auth_token' parameter".to_owned()));
                },
            };
            match self.handle_chapter_summary_update(cid.as_str(), summary.as_str(),
                token.as_str()) {
                Ok(res) => Some(success_response(id, res.content)),
                Err(e) => Some(error_response(id, e.code, e.message)),
            }
        } else if str_eq(m, "mcp.capabilities") {
            let mut content = String::new();
            content.append(
                "Tools: query, get_chapter_content, get_character_details, query_qa_regex, query_chapter_regex, query_character_regex");
            if self.config.write_enabled {
                content.append(", update_chapter_summary");
            }
            proof {
                assert(content@ =~= capabilities_text(self.config.write_enabled));
            }
            Some(success_response(id, content))
        } else if str_eq(m, "mcp.prompts") {
            Some(success_response(id,
                "Prompts: search_novel, character_details, chapter_summary".to_owned()))
        } else if str_eq(m, "initialize") {
            Some(success_response(id,
                "MongoDB MCP Server providing access to data with optimizations for small context windows (3k tokens)."
                .to_owned()))
        } else if str_eq(m, "notifications/initialized") {
            Some(success_response(id, String::new()))
        } else {
            Some(error_response(id, ERROR_METHOD_NOT_FOUND, "Method not found".to_owned()))
        }
    }
}

} // verus!
