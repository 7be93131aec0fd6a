//! What is sent for a GET request: the URL with its query, the proxy, how redirects are
//! handled, and the headers.
use vstd::prelude::*;
use vstd::utf8::{encode_utf8, encode_utf8_decode_utf8};

use crate::dict::{entries, law_entries_are_the_pairs, Entry};
use crate::encode::{
    base64_encode, base64_of, form_encode, form_of, law_base64_is_injective,
    law_form_is_empty_without_pairs, law_form_is_injective,
};
use crate::items::{
    all_text, are_texts, is_first_gap, is_first_not_text, item_views, items_in, lemma_items, pairs_of,
    text_pairs, text_view, Item, ItemView, NotText,
};
use crate::text::{chars_of, find_from, lemma_position_from};

verus! {

/// The settings of a proxy server.
#[verifier::external_type_specification]
#[verifier::external_body]
pub struct ExProxy(ureq::Proxy);

/// The proxy that a text describes, if it describes one.
pub uninterp spec fn proxy_in(text: Seq<char>) -> Option<ureq::Proxy>;

/// `Proxy::new` reads the settings of a proxy from a text, which alone decides what
/// comes out. Every text that it refuses it refuses with the same error, which is given
/// here by its message.
#[verifier::external_body]
fn parse_proxy(text: &str) -> (proxy: Result<ureq::Proxy, String>)
    ensures
        match proxy {
            Ok(proxy) => proxy_in(text@) == Some(proxy),
            Err(message) => proxy_in(text@) is None && message@ == "invalid proxy url"@,
        },
{
    match ureq::Proxy::new(text) {
        Ok(proxy) => Ok(proxy),
        Err(error) => Err(error.to_string()),
    }
}

/// A URL with a query behind it: set off by a question mark, or by an ampersand where
/// the URL has one already. An empty query changes nothing.
pub open spec fn url_with(url: Seq<char>, query: Seq<char>) -> Seq<char> {
    if query.len() == 0 {
        url
    } else if url.contains('?') {
        url + seq!['&'] + query
    } else {
        url + seq!['?'] + query
    }
}

/// Appends a query to a URL.
pub fn append_query(url: &str, query: &str) -> (whole: String)
    ensures
        whole@ == url_with(url@, query@),
{
    let mut whole: String = url.to_owned();
    if !query.is_empty() {
        let chars: Vec<char> = chars_of(url);
        let mark: usize = find_from(&chars, '?', 0);
        proof {
            lemma_position_from(url@, '?', 0);
            if mark < url@.len() {
                assert(url@[mark as int] == '?');
            } else {
                assert(!url@.contains('?'));
            }
        }
        whole.push(if mark < chars.len() {
            '&'
        } else {
            '?'
        });
        whole.append(query);
        assert(whole@ =~= url_with(url@, query@));
    }
    whole
}

/// The URL to ask for: `url`, with the parameters as its query. The first key or value
/// of the parameters that is not a text makes it fail.
pub fn build_url(url: &str, params: Option<&Vec<Item>>) -> (whole: Result<String, NotText>)
    ensures
        match whole {
            Ok(whole) => all_text(items_in(params)) && whole@ == url_with(
                url@,
                form_of(pairs_of(items_in(params))),
            ),
            Err(place) => is_first_not_text(items_in(params), place),
        },
{
    match params {
        Some(items) => match text_pairs(items) {
            Ok(pairs) => {
                let query: String = form_encode(&pairs);
                Ok(append_query(url, query.as_str()))
            },
            Err(place) => Err(place),
        },
        None => {
            assert(pairs_of(items_in(params)) =~= Seq::<Entry>::empty());
            Ok(url.to_owned())
        },
    }
}

/// One entry of the credentials.
#[derive(Debug, PartialEq, Eq)]
pub enum Field {
    /// There is no such entry.
    Missing,
    /// Its value is not a text.
    NotText,
    /// Its value.
    Text(String),
}

/// Credentials for basic authentication.
#[derive(Debug, PartialEq, Eq)]
pub struct Auth {
    pub username: Field,
    pub password: Field,
}

/// What credentials come to.
pub ghost enum Credentials {
    /// Nothing to send: there are none, or one of the two entries is missing.
    Absent,
    /// The username is there, but is not a text.
    UsernameNotText,
    /// The password is there, but is not a text.
    PasswordNotText,
    /// Username and password.
    Given { username: Seq<char>, password: Seq<char> },
}

/// What given credentials come to. Both entries have to be there for either to matter;
/// the username is looked at first.
pub open spec fn credentials_in(auth: Option<&Auth>) -> Credentials {
    match auth {
        None => Credentials::Absent,
        Some(auth) => match (auth.username, auth.password) {
            (Field::Missing, _) => Credentials::Absent,
            (_, Field::Missing) => Credentials::Absent,
            (Field::NotText, _) => Credentials::UsernameNotText,
            (_, Field::NotText) => Credentials::PasswordNotText,
            (Field::Text(username), Field::Text(password)) => Credentials::Given {
                username: username@,
                password: password@,
            },
        },
    }
}

/// Username and password as basic authentication joins them.
pub open spec fn joined(username: Seq<char>, password: Seq<char>) -> Seq<char> {
    username + seq![':'] + password
}

/// The value of the `Authorization` header for basic authentication.
pub open spec fn basic_auth_of(username: Seq<char>, password: Seq<char>) -> Seq<char> {
    "Basic "@ + base64_of(encode_utf8(joined(username, password)))
}

/// Whether the Base64 text of so many bytes has a length that a vector can have.
pub open spec fn base64_fits(len: nat) -> bool {
    (len + 2) / 3 * 4 <= isize::MAX
}

/// Whether credentials, where there are any to send, are short enough to be encoded.
pub open spec fn auth_fits(auth: Option<&Auth>) -> bool {
    match credentials_in(auth) {
        Credentials::Given { username, password } => base64_fits(
            encode_utf8(joined(username, password)).len(),
        ),
        _ => true,
    }
}

/// The headers of a request: the custom ones, then that of the credentials.
pub open spec fn headers_for(custom: Seq<Entry>, credentials: Credentials) -> Seq<Entry> {
    match credentials {
        Credentials::Given { username, password } => custom.push(
            ("Authorization"@, basic_auth_of(username, password)),
        ),
        _ => custom,
    }
}

/// The value of the `Authorization` header for basic authentication.
pub fn basic_auth(username: &str, password: &str) -> (value: String)
    requires
        base64_fits(encode_utf8(joined(username@, password@)).len()),
    ensures
        value@ == basic_auth_of(username@, password@),
{
    let mut plain: String = username.to_owned();
    plain.push(':');
    plain.append(password);
    assert(plain@ =~= joined(username@, password@));
    let mut value: String = "Basic ".to_owned();
    let encoded: String = base64_encode(plain.as_str().as_bytes());
    value.append(encoded.as_str());
    value
}

/// Why no request is sent.
#[derive(Debug, PartialEq, Eq)]
pub enum PlanError {
    /// The proxy is not a text.
    ProxyNotText,
    /// The proxy is not one; with the reason.
    BadProxy(String),
    /// A header name or value is not a text.
    HeaderNotText(NotText),
    /// The username is not a text.
    UsernameNotText,
    /// The password is not a text.
    PasswordNotText,
}

/// A GET request, ready to be sent. Whatever the status of the answer, it becomes a
/// response.
pub struct GetPlan {
    pub url: String,
    /// How many redirects to follow, where that is limited.
    pub max_redirects: Option<u32>,
    pub proxy: Option<ureq::Proxy>,
    /// Whether a bad status is an error of the request, and not one that the response
    /// reports.
    pub status_is_error: bool,
    /// The headers to add, in this order.
    pub headers: Vec<(String, String)>,
}

/// What the proxies come to.
pub ghost enum ProxyChoice {
    /// There is no proxy.
    Direct,
    /// The first entry has a value that is not a text.
    NotText,
    /// The value of the first entry.
    Through { text: Seq<char> },
}

/// The proxy to use: the first one counts, whatever its scheme.
pub open spec fn chosen_proxy(proxies: Option<&Vec<Item>>) -> ProxyChoice {
    let items = items_in(proxies);
    if items.len() == 0 {
        ProxyChoice::Direct
    } else {
        match items[0].1 {
            Some(text) => ProxyChoice::Through { text },
            None => ProxyChoice::NotText,
        }
    }
}

/// What planning a request comes to, once its proxy is settled.
pub open spec fn plan_is(
    plan: Result<GetPlan, PlanError>,
    url: Seq<char>,
    allow_redirects: bool,
    proxy: Option<ureq::Proxy>,
    headers: Seq<ItemView>,
    credentials: Credentials,
) -> bool {
    if !all_text(headers) {
        plan matches Err(PlanError::HeaderNotText(place)) && is_first_not_text(headers, place)
    } else {
        match credentials {
            Credentials::UsernameNotText => plan == Err::<GetPlan, PlanError>(
                PlanError::UsernameNotText,
            ),
            Credentials::PasswordNotText => plan == Err::<GetPlan, PlanError>(
                PlanError::PasswordNotText,
            ),
            _ => {
                &&& plan matches Ok(plan)
                &&& plan.url@ == url
                &&& plan.max_redirects == (if allow_redirects {
                    None::<u32>
                } else {
                    Some(0u32)
                })
                &&& plan.proxy == proxy
                &&& plan.status_is_error == false
                &&& entries(plan.headers@) == headers_for(pairs_of(headers), credentials)
            },
        }
    }
}

/// Plans a request whose proxy is settled.
pub fn plan_through(
    url: String,
    allow_redirects: bool,
    proxy: Option<ureq::Proxy>,
    headers: Option<&Vec<Item>>,
    auth: Option<&Auth>,
) -> (plan: Result<GetPlan, PlanError>)
    requires
        auth_fits(auth),
    ensures
        plan_is(plan, url@, allow_redirects, proxy, items_in(headers), credentials_in(auth)),
{
    let mut lines: Vec<(String, String)> = match headers {
        Some(items) => match text_pairs(items) {
            Ok(pairs) => pairs,
            Err(place) => {
                return Err(PlanError::HeaderNotText(place));
            },
        },
        None => Vec::new(),
    };
    let ghost custom = pairs_of(items_in(headers));
    assert(entries(lines@) =~= custom);
    if let Some(auth) = auth {
        match (&auth.username, &auth.password) {
            (Field::Missing, _) => {},
            (_, Field::Missing) => {},
            (Field::NotText, _) => {
                return Err(PlanError::UsernameNotText);
            },
            (_, Field::NotText) => {
                return Err(PlanError::PasswordNotText);
            },
            (Field::Text(username), Field::Text(password)) => {
                let value: String = basic_auth(username.as_str(), password.as_str());
                lines.push(("Authorization".to_owned(), value));
                assert(entries(lines@) =~= custom.push(
                    ("Authorization"@, basic_auth_of(username@, password@)),
                ));
            },
        }
    }
    let max_redirects: Option<u32> = if allow_redirects {
        None
    } else {
        Some(0)
    };
    Ok(GetPlan { url, max_redirects, proxy, status_is_error: false, headers: lines })
}

/// Plans a GET request for `url`: settles the proxy, then the headers, then the
/// credentials. The first of them that is not in order makes it fail.
pub fn plan_get(
    url: String,
    allow_redirects: bool,
    proxies: Option<&Vec<Item>>,
    headers: Option<&Vec<Item>>,
    auth: Option<&Auth>,
) -> (plan: Result<GetPlan, PlanError>)
    requires
        auth_fits(auth),
    ensures
        match chosen_proxy(proxies) {
            ProxyChoice::Direct => plan_is(
                plan,
                url@,
                allow_redirects,
                None,
                items_in(headers),
                credentials_in(auth),
            ),
            ProxyChoice::NotText => plan == Err::<GetPlan, PlanError>(PlanError::ProxyNotText),
            ProxyChoice::Through { text } => if proxy_in(text) is Some {
                plan_is(
                    plan,
                    url@,
                    allow_redirects,
                    proxy_in(text),
                    items_in(headers),
                    credentials_in(auth),
                )
            } else {
                plan matches Err(PlanError::BadProxy(message)) && message@ == "invalid proxy url"@
            },
        },
{
    let mut proxy: Option<ureq::Proxy> = None;
    if let Some(items) = proxies {
        if items.len() > 0 {
            assert(items_in(proxies)[0].1 == text_view(items@[0].1));
            match &items[0].1 {
                Some(text) => match parse_proxy(text.as_str()) {
                    Ok(settings) => {
                        proxy = Some(settings);
                    },
                    Err(message) => {
                        return Err(PlanError::BadProxy(message));
                    },
                },
                None => {
                    return Err(PlanError::ProxyNotText);
                },
            }
        }
    }
    plan_through(url, allow_redirects, proxy, headers, auth)
}

/// The UTF-8 bytes of two texts joined are those of the one, then those of the other.
proof fn lemma_utf8_of_joined(a: Seq<char>, b: Seq<char>)
    ensures
        encode_utf8(a + b) == encode_utf8(a) + encode_utf8(b),
    decreases a.len(),
{
    if a.len() == 0 {
        assert(a + b =~= b);
    } else {
        assert((a + b).drop_first() =~= a.drop_first() + b);
        lemma_utf8_of_joined(a.drop_first(), b);
    }
    assert(encode_utf8(a + b) =~= encode_utf8(a) + encode_utf8(b));
}

/// Whether credentials are short enough to be encoded.
pub fn auth_is_short(auth: Option<&Auth>) -> (short: bool)
    ensures
        short == auth_fits(auth),
{
    if let Some(auth) = auth {
        if let (Field::Text(username), Field::Text(password)) = (&auth.username, &auth.password) {
            proof {
                lemma_utf8_of_joined(username@ + seq![':'], password@);
                lemma_utf8_of_joined(username@, seq![':']);
                assert(seq![':'].drop_first() =~= Seq::<char>::empty());
                reveal_with_fuel(encode_utf8, 2);
                assert(encode_utf8(seq![':']).len() == 1);
            }
            let limit: u128 = isize::MAX as u128;
            let bytes: u128 = username.as_str().as_bytes().len() as u128
                + password.as_str().as_bytes().len() as u128 + 1;
            return (bytes + 2) / 3 * 4 <= limit;
        }
    }
    true
}

/// A query leaves the URL in front of it as it was, and without parameters nothing is
/// added.
pub proof fn law_query_keeps_the_url(url: Seq<char>, params: Seq<Entry>)
    ensures
        url.is_prefix_of(url_with(url, form_of(params))),
        params.len() == 0 <==> url_with(url, form_of(params)) == url,
{
    law_form_is_empty_without_pairs(params);
    let whole = url_with(url, form_of(params));
    assert(whole.subrange(0, url.len() as int) =~= url);
    if params.len() > 0 {
        assert(whole.len() > url.len());
    }
}

/// The parameters of a URL follow from it, in their order: other parameters give
/// another URL.
pub proof fn law_query_tells_the_parameters(url: Seq<char>, a: Seq<Entry>, b: Seq<Entry>)
    requires
        url_with(url, form_of(a)) == url_with(url, form_of(b)),
    ensures
        a == b,
{
    law_form_is_empty_without_pairs(a);
    law_form_is_empty_without_pairs(b);
    let whole = url_with(url, form_of(a));
    if a.len() > 0 && b.len() > 0 {
        assert(form_of(a) =~= whole.skip(url.len() as int + 1));
        assert(form_of(b) =~= whole.skip(url.len() as int + 1));
    }
    assert(form_of(a) =~= form_of(b));
    law_form_is_injective(a, b);
}

/// Username and password follow from the `Authorization` header, for a username
/// without a colon.
pub proof fn law_basic_auth_tells_the_credentials(
    username: Seq<char>,
    password: Seq<char>,
    other_username: Seq<char>,
    other_password: Seq<char>,
)
    requires
        basic_auth_of(username, password) == basic_auth_of(other_username, other_password),
        !username.contains(':'),
        !other_username.contains(':'),
    ensures
        username == other_username,
        password == other_password,
{
    let a = joined(username, password);
    let b = joined(other_username, other_password);
    let prefix = "Basic "@;
    assert(base64_of(encode_utf8(a)) =~= basic_auth_of(username, password).skip(prefix.len() as int));
    assert(base64_of(encode_utf8(b)) =~= basic_auth_of(other_username, other_password).skip(
        prefix.len() as int,
    ));
    law_base64_is_injective(encode_utf8(a), encode_utf8(b));
    encode_utf8_decode_utf8(a);
    encode_utf8_decode_utf8(b);
    assert(a == b);
    assert(a[username.len() as int] == ':');
    assert(b[other_username.len() as int] == ':');
    if username.len() < other_username.len() {
        assert(other_username[username.len() as int] == ':');
    }
    if other_username.len() < username.len() {
        assert(username[other_username.len() as int] == ':');
    }
    assert(username =~= a.take(username.len() as int));
    assert(other_username =~= a.take(username.len() as int));
    assert(password =~= a.skip(username.len() as int + 1));
    assert(other_password =~= a.skip(username.len() as int + 1));
}

/// Nothing follows the URL where there is no query. Otherwise the query follows it, with one
/// character between them: an ampersand if the URL holds a question mark, and a question
/// mark if not.
pub proof fn law_query_is_set_off(url: &str, query: &str, whole: String)
    requires
        call_ensures(append_query, (url, query), whole),
    ensures
        query@.len() == 0 ==> whole@ == url@,
        query@.len() > 0 ==> {
            &&& whole@.len() == url@.len() + 1 + query@.len()
            &&& whole@.take(url@.len() as int) == url@
            &&& whole@.skip(url@.len() + 1int) == query@
            &&& whole@[url@.len() as int] == '&' <==> exists|i: int|
                0 <= i < url@.len() && #[trigger] url@[i] == '?'
            &&& whole@[url@.len() as int] == '?' <==> !exists|i: int|
                0 <= i < url@.len() && #[trigger] url@[i] == '?'
        },
{
    if query@.len() > 0 {
        assert(whole@.take(url@.len() as int) =~= url@);
        assert(whole@.skip(url@.len() + 1int) =~= query@);
        if exists|i: int| 0 <= i < url@.len() && #[trigger] url@[i] == '?' {
            let i = choose|i: int| 0 <= i < url@.len() && #[trigger] url@[i] == '?';
            assert(url@.contains(url@[i]));
        }
    }
}

/// The URL to ask for holds all parameters, in their order, as a form behind the given URL.
/// Without parameters it is the given URL. It is refused if, and only if, a key or a value
/// is not a text, and then for the first such.
pub proof fn law_parameters_become_the_query(
    url: &str,
    params: Option<&Vec<Item>>,
    whole: Result<String, NotText>,
)
    requires
        call_ensures(build_url, (url, params), whole),
    ensures
        params is None ==> whole is Ok,
        params matches Some(items) ==> (whole is Ok <==> are_texts(items@)),
        whole matches Err(place) ==> is_first_gap(params->0@, place),
        whole matches Ok(whole) ==> {
            let pairs = match params {
                Some(items) => Seq::new(
                    items@.len(),
                    |i: int| (items@[i].0->0@, items@[i].1->0@),
                ),
                None => Seq::<Entry>::empty(),
            };
            &&& pairs.len() == 0 ==> whole@ == url@
            &&& pairs.len() > 0 ==> whole@ == url@ + (if url@.contains('?') {
                seq!['&']
            } else {
                seq!['?']
            }) + form_of(pairs)
        },
{
    match params {
        Some(items) => {
            lemma_items(items@);
            law_form_is_empty_without_pairs(
                Seq::new(items@.len(), |i: int| (items@[i].0->0@, items@[i].1->0@)),
            );
        },
        None => {
            law_form_is_empty_without_pairs(Seq::empty());
            assert(pairs_of(items_in(params)) =~= Seq::<Entry>::empty());
        },
    }
}

/// Basic authentication sends the word `Basic`, a space, and the Base64 text of the UTF-8
/// bytes of username, colon and password.
pub proof fn law_basic_auth_sends_the_credentials(username: &str, password: &str, value: String)
    requires
        call_ensures(basic_auth, (username, password), value),
    ensures
        value@ == "Basic "@ + base64_of(encode_utf8(username@ + seq![':'] + password@)),
{
}

/// Credentials are too long only if both parts are texts and the Base64 text of their bytes,
/// with one for the colon, is longer than a vector can be.
pub proof fn law_only_long_credentials_are_not_short(auth: Option<&Auth>, short: bool)
    requires
        call_ensures(auth_is_short, (auth,), short),
    ensures
        !short <==> {
            &&& auth matches Some(auth)
            &&& auth.username matches Field::Text(username)
            &&& auth.password matches Field::Text(password)
            &&& (encode_utf8(username@).len() + 1 + encode_utf8(password@).len() + 2) / 3 * 4
                > isize::MAX
        },
{
    if let Some(auth) = auth {
        if let (Field::Text(username), Field::Text(password)) = (auth.username, auth.password) {
            lemma_utf8_of_joined(username@ + seq![':'], password@);
            lemma_utf8_of_joined(username@, seq![':']);
            assert(seq![':'].drop_first() =~= Seq::<char>::empty());
            reveal_with_fuel(encode_utf8, 2);
            assert(encode_utf8(seq![':']).len() == 1);
        }
    }
}

/// Whether both entries of the credentials are there, be they texts or not.
pub open spec fn has_both(auth: Option<&Auth>) -> bool {
    auth matches Some(auth) && !(auth.username is Missing) && !(auth.password is Missing)
}

/// The items of a dictionary that may be missing.
pub open spec fn given_items(dict: Option<&Vec<Item>>) -> Seq<Item> {
    match dict {
        Some(items) => items@,
        None => Seq::empty(),
    }
}

/// Whether headers are sent as they were given: first all custom ones, each in its place
/// with its name and its value, then that of the credentials if there are any, and nothing
/// else.
pub open spec fn sends_headers(
    lines: Seq<(String, String)>,
    custom: Seq<Item>,
    auth: Option<&Auth>,
) -> bool {
    &&& lines.len() == custom.len() + (if has_both(auth) {
        1int
    } else {
        0
    })
    &&& forall|i: int|
        0 <= i < custom.len() ==> (#[trigger] lines[i]).0@ == custom[i].0->0@ && lines[i].1@
            == custom[i].1->0@
    &&& has_both(auth) ==> lines.last().0@ == "Authorization"@ && lines.last().1@ == "Basic "@
        + base64_of(
        encode_utf8(auth->0.username->Text_0@ + seq![':'] + auth->0.password->Text_0@),
    )
}

/// Whether a plan does what was asked for, with that proxy; or, if it is none, whether the
/// reason is the first that there is: a header that is not a text, a username, a password.
pub open spec fn serves(
    plan: Result<GetPlan, PlanError>,
    url: Seq<char>,
    allow_redirects: bool,
    proxy: Option<ureq::Proxy>,
    headers: Option<&Vec<Item>>,
    auth: Option<&Auth>,
) -> bool {
    let custom = given_items(headers);
    match plan {
        Ok(plan) => {
            &&& are_texts(custom)
            &&& has_both(auth) ==> auth->0.username is Text && auth->0.password is Text
            &&& plan.url@ == url
            &&& allow_redirects ==> plan.max_redirects is None
            &&& !allow_redirects ==> plan.max_redirects == Some(0u32)
            &&& plan.proxy == proxy
            &&& !plan.status_is_error
            &&& sends_headers(plan.headers@, custom, auth)
        },
        Err(PlanError::HeaderNotText(place)) => is_first_gap(custom, place),
        Err(PlanError::UsernameNotText) => are_texts(custom) && has_both(auth)
            && auth->0.username is NotText,
        Err(PlanError::PasswordNotText) => are_texts(custom) && has_both(auth)
            && auth->0.username is Text && auth->0.password is NotText,
        _ => false,
    }
}

/// What planning comes to serves what was asked for.
proof fn lemma_plan_serves(
    plan: Result<GetPlan, PlanError>,
    url: Seq<char>,
    allow_redirects: bool,
    proxy: Option<ureq::Proxy>,
    headers: Option<&Vec<Item>>,
    auth: Option<&Auth>,
)
    requires
        plan_is(plan, url, allow_redirects, proxy, items_in(headers), credentials_in(auth)),
    ensures
        serves(plan, url, allow_redirects, proxy, headers, auth),
{
    let custom = given_items(headers);
    assert(items_in(headers) =~= item_views(custom));
    lemma_items(custom);
    if let Ok(plan) = plan {
        let pairs = pairs_of(items_in(headers));
        law_entries_are_the_pairs(plan.headers@);
        assert(pairs == Seq::new(custom.len(), |i: int| (custom[i].0->0@, custom[i].1->0@)));
        let sent = entries(plan.headers@);
        assert(sent.len() == plan.headers@.len());
        assert forall|i: int| 0 <= i < custom.len() implies (#[trigger] plan.headers@[i]).0@
            == custom[i].0->0@ && plan.headers@[i].1@ == custom[i].1->0@ by {
            assert(sent[i] == pairs[i]);
        }
        if has_both(auth) {
            assert(sent.last() == (plan.headers@.last().0@, plan.headers@.last().1@));
        }
    }
}

/// A plan for a settled proxy does what was asked for: it goes to the given URL through that
/// proxy, follows redirects or not as allowed, takes every status as an answer, and sends
/// all custom headers and, whenever both username and password are given, the credentials
/// behind them, however many custom headers there are.
pub proof fn law_plan_serves_what_was_asked(
    url: String,
    allow_redirects: bool,
    proxy: Option<ureq::Proxy>,
    headers: Option<&Vec<Item>>,
    auth: Option<&Auth>,
    plan: Result<GetPlan, PlanError>,
)
    requires
        call_ensures(plan_through, (url, allow_redirects, proxy, headers, auth), plan),
    ensures
        serves(plan, url@, allow_redirects, proxy, headers, auth),
{
    lemma_plan_serves(plan, url@, allow_redirects, proxy, headers, auth);
}

/// The first proxy that is given is the one that is gone through, and none where none is
/// given. The plan then does what was asked for. A first proxy that is not a text, or that
/// is not a proxy, is refused whatever else is asked for, and nothing else refuses a proxy.
pub proof fn law_first_proxy_is_gone_through(
    url: String,
    allow_redirects: bool,
    proxies: Option<&Vec<Item>>,
    headers: Option<&Vec<Item>>,
    auth: Option<&Auth>,
    plan: Result<GetPlan, PlanError>,
)
    requires
        call_ensures(plan_get, (url, allow_redirects, proxies, headers, auth), plan),
    ensures
        ({
            let given = given_items(proxies);
            &&& given.len() == 0 ==> serves(plan, url@, allow_redirects, None, headers, auth)
            &&& given.len() > 0 ==> match given[0].1 {
                None => plan == Err::<GetPlan, PlanError>(PlanError::ProxyNotText),
                Some(text) => {
                    &&& proxy_in(text@) is Some ==> serves(
                        plan,
                        url@,
                        allow_redirects,
                        proxy_in(text@),
                        headers,
                        auth,
                    )
                    &&& proxy_in(text@) is None ==> (plan matches Err(PlanError::BadProxy(message))
                        && message@ == "invalid proxy url"@)
                },
            }
        }),
{
    let given = given_items(proxies);
    assert(items_in(proxies) =~= item_views(given));
    if given.len() == 0 {
        lemma_plan_serves(plan, url@, allow_redirects, None, headers, auth);
    } else {
        assert(items_in(proxies)[0].1 == text_view(given[0].1));
        if let Some(text) = given[0].1 {
            if proxy_in(text@) is Some {
                lemma_plan_serves(plan, url@, allow_redirects, proxy_in(text@), headers, auth);
            }
        }
    }
}

/// Short credentials are all that planning asks for: whatever else is given, a plan or a
/// reason against it can be had.
pub proof fn law_short_credentials_can_be_planned_for(
    url: String,
    allow_redirects: bool,
    proxy: Option<ureq::Proxy>,
    proxies: Option<&Vec<Item>>,
    headers: Option<&Vec<Item>>,
    auth: Option<&Auth>,
)
    requires
        call_ensures(auth_is_short, (auth,), true),
    ensures
        call_requires(plan_through, (url, allow_redirects, proxy, headers, auth)),
        call_requires(plan_get, (url, allow_redirects, proxies, headers, auth)),
{
}

} // verus!
