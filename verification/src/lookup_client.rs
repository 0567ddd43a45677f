//! One remote lookup for one row: the request that is sent, and what the
//! provider's reply makes of the row.

use vstd::prelude::*;
use vstd::string::*;
use vstd::utf8::*;
use crate::percent_encoding::{encode, is_plain, lemma_plain_text_unchanged, percent_encoded};
use crate::{clone_text, text_of, CsvRow, RowView};

verus! {

/// The position of the first `x` in a phone number, or its length where it
/// holds none.
pub open spec fn extension_start(phone: Seq<char>) -> int
    decreases phone.len(),
{
    if phone.len() == 0 || phone[0] == 'x' {
        0
    } else {
        1 + extension_start(phone.drop_first())
    }
}

/// The part of a phone number that is dialled: what stands before the
/// extension.
pub open spec fn dialable(phone: Seq<char>) -> Seq<char> {
    phone.subrange(0, extension_start(phone))
}

/// The extension starts inside the number, at an `x` or at the end, and no
/// `x` stands before it.
pub proof fn lemma_extension_start(phone: Seq<char>)
    ensures
        0 <= extension_start(phone) <= phone.len(),
        extension_start(phone) < phone.len() ==> phone[extension_start(phone)] == 'x',
        forall|i: int| 0 <= i < extension_start(phone) ==> phone[i] != 'x',
    decreases phone.len(),
{
    if phone.len() == 0 || phone[0] == 'x' {
    } else {
        let rest = phone.drop_first();
        lemma_extension_start(rest);
        assert forall|i: int| 0 <= i < extension_start(phone) implies phone[i] != 'x' by {
            if i > 0 {
                assert(phone[i] == rest[i - 1]);
            }
        }
    }
}

/// The extension start is the only position that is an `x` or the end and
/// has no `x` before it.
pub proof fn lemma_extension_start_unique(phone: Seq<char>, k: int)
    requires
        0 <= k <= phone.len(),
        k < phone.len() ==> phone[k] == 'x',
        forall|i: int| 0 <= i < k ==> phone[i] != 'x',
    ensures
        extension_start(phone) == k,
{
    lemma_extension_start(phone);
}

/// Strips the extension from a phone number.
pub fn strip_extension(phone: &str) -> (r: String)
    ensures
        r@ == dialable(phone@),
{
    let n = phone.unicode_len();
    let mut i: usize = 0;
    while i < n && phone.get_char(i) != 'x'
        invariant
            n == phone@.len(),
            i <= n,
            forall|j: int| 0 <= j < i ==> phone@[j] != 'x',
        decreases n - i,
    {
        i += 1;
    }
    proof {
        lemma_extension_start_unique(phone@, i as int);
    }
    String::from_str(phone.substring_char(0, i))
}

/// The text of a lookup request for a phone number, with the key that
/// authorises it.
pub open spec fn request_text(api_key: Seq<char>, phone: Seq<char>) -> Seq<char> {
    "https://www.phonevalidator.com/api/v2/phonesearch?apikey="@ + api_key + "&phone="@
        + percent_encoded(encode_utf8(dialable(phone))) + "&type=basic"@
}

/// A number whose dialled part needs no escaping stands in the request as
/// it is, without its extension.
pub proof fn lemma_plain_number_sent_as_is(api_key: Seq<char>, phone: Seq<char>)
    requires
        is_plain(dialable(phone)),
    ensures
        request_text(api_key, phone)
            == "https://www.phonevalidator.com/api/v2/phonesearch?apikey="@ + api_key
            + "&phone="@ + dialable(phone) + "&type=basic"@,
{
    lemma_plain_text_unchanged(dialable(phone));
}

/// The URL that asks the provider about a phone number.
pub fn request_url(api_key: &str, phone: &str) -> (r: String)
    ensures
        r@ == request_text(api_key@, phone@),
{
    let number = strip_extension(phone);
    let escaped = encode(number.as_str());
    let mut url = String::from_str("https://www.phonevalidator.com/api/v2/phonesearch?apikey=");
    url.append(api_key);
    url.append("&phone=");
    url.append(escaped.as_str());
    url.append("&type=basic");
    url
}

/// The nested record of a reply that describes the number itself.
#[derive(Debug)]
pub struct ResponsePhoneBasic {
    pub phone_number: Option<String>,
    pub report_date: Option<String>,
    pub line_type: Option<String>,
    pub phone_company: Option<String>,
    pub phone_location: Option<String>,
    pub error_code: Option<String>,
    pub error_description: Option<String>,
}

impl Default for ResponsePhoneBasic {
    fn default() -> (r: Self)
        ensures
            r.phone_number is None,
            r.report_date is None,
            r.line_type is None,
            r.phone_company is None,
            r.phone_location is None,
            r.error_code is None,
            r.error_description is None,
    {
        ResponsePhoneBasic {
            phone_number: None,
            report_date: None,
            line_type: None,
            phone_company: None,
            phone_location: None,
            error_code: None,
            error_description: None,
        }
    }
}

/// A decoded reply of the provider.
#[derive(Debug)]
pub struct ResponseData {
    pub phone: Option<String>,
    pub search_date: Option<String>,
    pub status_code: Option<String>,
    pub status_message: Option<String>,
    pub phone_basic: Option<ResponsePhoneBasic>,
}

impl ResponseData {
    /// The line type that the reply carries: that of its nested record, and
    /// none where the record is missing.
    pub open spec fn line_type(&self) -> Option<Seq<char>> {
        match self.phone_basic {
            Some(basic) => text_of(basic.line_type),
            None => None,
        }
    }

    /// Whether the provider reports its own success code.
    pub open spec fn provider_ok(&self) -> bool {
        text_of(self.status_code) == Some("200"@)
    }
}

/// What came back from the network for one request.
#[derive(Debug)]
pub enum ProviderReply {
    /// The call itself failed: no connection, or a timeout.
    Unreachable(String),
    /// A reply arrived. `decoded` is unset where the body does not follow the
    /// provider's schema.
    Received { http_status: u16, body: String, decoded: Option<ResponseData> },
}

/// How one lookup ended.
#[derive(Debug)]
pub enum LookupOutcome {
    /// The provider classified the number; the line type may be unset.
    Success(Option<String>),
    /// The call itself failed.
    TransportFailure(String),
    /// The provider answered with a status code other than its success code.
    ProviderError(Option<String>, Option<String>),
    /// The body could not be decoded; it is kept for diagnosis.
    DecodeFailure(String),
}

/// A lookup's outcome as mathematics.
pub enum OutcomeView {
    Success(Option<Seq<char>>),
    TransportFailure(Seq<char>),
    ProviderError(Option<Seq<char>>, Option<Seq<char>>),
    DecodeFailure(Seq<char>),
}

impl View for LookupOutcome {
    type V = OutcomeView;

    open spec fn view(&self) -> OutcomeView {
        match *self {
            LookupOutcome::Success(t) => OutcomeView::Success(text_of(t)),
            LookupOutcome::TransportFailure(d) => OutcomeView::TransportFailure(d@),
            LookupOutcome::ProviderError(c, m) => OutcomeView::ProviderError(
                text_of(c),
                text_of(m),
            ),
            LookupOutcome::DecodeFailure(b) => OutcomeView::DecodeFailure(b@),
        }
    }
}

impl OutcomeView {
    /// An outcome that ends the whole run: the network failed, or the reply
    /// could not be read.
    pub open spec fn is_fatal(self) -> bool {
        self is TransportFailure || self is DecodeFailure
    }
}

impl LookupOutcome {
    /// Whether this outcome ends the whole run.
    pub fn is_fatal(&self) -> (r: bool)
        ensures
            r == self@.is_fatal(),
    {
        match self {
            LookupOutcome::TransportFailure(_) => true,
            LookupOutcome::DecodeFailure(_) => true,
            _ => false,
        }
    }
}

/// The HTTP status that stands for success.
pub const HTTP_OK: u16 = 200;

/// The outcome that a reply amounts to.
pub open spec fn outcome_of(reply: ProviderReply) -> OutcomeView {
    match reply {
        ProviderReply::Unreachable(description) => OutcomeView::TransportFailure(description@),
        ProviderReply::Received { http_status, body, decoded } => match decoded {
            None => OutcomeView::DecodeFailure(body@),
            Some(data) => if data.provider_ok() {
                OutcomeView::Success(data.line_type())
            } else {
                OutcomeView::ProviderError(text_of(data.status_code), text_of(data.status_message))
            },
        },
    }
}

/// The row after a reply: its type is the reply's line type where the reply
/// could be decoded, and the row is untouched otherwise.
pub open spec fn row_after(row: RowView, reply: ProviderReply) -> RowView {
    match reply {
        ProviderReply::Received { http_status, body, decoded: Some(data) } => RowView {
            internal_id: row.internal_id,
            phone: row.phone,
            phone_type: data.line_type(),
        },
        _ => row,
    }
}

/// The warning that a reply carries: its HTTP status, where one arrived that
/// is not the success status.
pub open spec fn warning_of(reply: ProviderReply) -> Option<u16> {
    match reply {
        ProviderReply::Received { http_status, body, decoded } => if http_status != HTTP_OK {
            Some(http_status)
        } else {
            None
        },
        _ => None,
    }
}

/// A finished lookup: the row as it now stands, how the lookup ended, and the
/// HTTP status where it calls for a warning.
#[derive(Debug)]
pub struct Lookup {
    pub row: CsvRow,
    pub outcome: LookupOutcome,
    pub http_warning: Option<u16>,
}

/// Applies the provider's reply to the row that was asked about.
pub fn resolve(row: CsvRow, reply: ProviderReply) -> (r: Lookup)
    ensures
        r.row@ == row_after(row@, reply),
        r.outcome@ == outcome_of(reply),
        r.http_warning == warning_of(reply),
{
    match reply {
        ProviderReply::Unreachable(description) => Lookup {
            row,
            outcome: LookupOutcome::TransportFailure(description),
            http_warning: None,
        },
        ProviderReply::Received { http_status, body, decoded } => {
            let http_warning = if http_status != HTTP_OK {
                Some(http_status)
            } else {
                None
            };
            match decoded {
                None => Lookup { row, outcome: LookupOutcome::DecodeFailure(body), http_warning },
                Some(data) => {
                    let line_type = match data.phone_basic {
                        Some(basic) => basic.line_type,
                        None => None,
                    };
                    let ok = match &data.status_code {
                        Some(code) => *code == String::from_str("200"),
                        None => false,
                    };
                    let outcome = if ok {
                        LookupOutcome::Success(clone_text(&line_type))
                    } else {
                        LookupOutcome::ProviderError(data.status_code, data.status_message)
                    };
                    Lookup {
                        row: CsvRow {
                            internal_id: row.internal_id,
                            phone: row.phone,
                            phone_type: line_type,
                        },
                        outcome,
                        http_warning,
                    }
                },
            }
        },
    }
}

} // verus!
