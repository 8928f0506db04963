//! Mailbox delivery dates: the records that the API answers with, and the
//! address that it is asked at.
use std::path::PathBuf;
use vstd::prelude::*;
use vstd::string::*;
use vstd::utf8::*;

use crate::bring_client::{
    is_header_text, ApiKey, ApiUid, HeaderText, HeaderView, NorwegianPostalCode, HEADER_KEY,
    HEADER_UID, NORWAY,
};
use crate::date::{Date, Ymd};
use crate::text::four_digits;

verus! {

/// A delivery as the contracts see it: the number of the postal code, and
/// the day.
pub struct Delivery {
    pub postal_code: int,
    pub date: Ymd,
}

/// Mail arrives at a postal code on a day. The day is never the last that a
/// date can be, so the day after it can always be named.
#[derive(Debug, Clone, Copy)]
pub struct DeliveryDate {
    postal_code: NorwegianPostalCode,
    date: Date,
}

impl View for DeliveryDate {
    type V = Delivery;

    closed spec fn view(&self) -> Delivery {
        Delivery { postal_code: self.postal_code@, date: self.date@ }
    }
}

impl DeliveryDate {
    /// The day of a delivery has a day after it.
    #[verifier::type_invariant]
    pub open spec fn has_day_after(self) -> bool {
        &&& 0 <= self@.postal_code <= 9999
        &&& self@.date.valid()
        &&& !self@.date.is_last()
    }

    /// The delivery at `postal_code` on `date`.
    pub fn new(postal_code: NorwegianPostalCode, date: Date) -> (delivery: Self)
        requires
            !date@.is_last(),
        ensures
            delivery@ == (Delivery { postal_code: postal_code@, date: date@ }),
    {
        proof {
            use_type_invariant(postal_code);
            use_type_invariant(date);
        }
        Self { postal_code, date }
    }

    /// The postal code that the mail arrives at.
    pub fn postal_code(&self) -> (postal_code: NorwegianPostalCode)
        ensures
            postal_code@ == self@.postal_code,
    {
        self.postal_code
    }

    /// The day that the mail arrives on.
    pub fn date(&self) -> (date: Date)
        ensures
            date@ == self@.date,
    {
        self.date
    }
}

/// The deliveries at one postal code on each of `dates`, in their order.
pub fn delivery_dates(postal_code: NorwegianPostalCode, dates: &Vec<Date>) -> (deliveries: Vec<
    DeliveryDate,
>)
    requires
        forall|i: int| 0 <= i < dates@.len() ==> !(#[trigger] dates@[i])@.is_last(),
    ensures
        deliveries@.len() == dates@.len(),
        forall|i: int|
            0 <= i < dates@.len() ==> (#[trigger] deliveries@[i])@ == (Delivery {
                postal_code: postal_code@,
                date: dates@[i]@,
            }),
{
    let mut deliveries: Vec<DeliveryDate> = Vec::new();
    let mut i: usize = 0;
    while i < dates.len()
        invariant
            i <= dates@.len(),
            deliveries@.len() == i,
            forall|j: int| 0 <= j < dates@.len() ==> !(#[trigger] dates@[j])@.is_last(),
            forall|j: int|
                0 <= j < i ==> (#[trigger] deliveries@[j])@ == (Delivery {
                    postal_code: postal_code@,
                    date: dates@[j]@,
                }),
        decreases dates@.len() - i,
    {
        deliveries.push(DeliveryDate::new(postal_code, dates[i]));
        i = i + 1;
    }
    deliveries
}

/// The address that the delivery dates of a postal code are asked at.
pub open spec fn mailbox_delivery_dates_url_text(postal_code: int) -> Seq<char> {
    "https://api.bring.com/address/api/"@ + NORWAY@ + "/postal-codes/"@ + four_digits(postal_code)
        + "/mailbox-delivery-dates"@
}

/// The address that the delivery dates of `postal_code` are asked at.
pub fn mailbox_delivery_dates_url(postal_code: &NorwegianPostalCode) -> (url: String)
    ensures
        url@ == mailbox_delivery_dates_url_text(postal_code@),
{
    let mut url = String::new();
    url.append("https://api.bring.com/address/api/");
    url.append(NORWAY);
    url.append("/postal-codes/");
    let code = postal_code.to_string();
    url.append(code.as_str());
    url.append("/mailbox-delivery-dates");
    proof {
        assert(url@ =~= mailbox_delivery_dates_url_text(postal_code@));
    }
    url
}

/// The name of the header that says which kind of answer is wanted.
pub const HEADER_ACCEPT: &'static str = "accept";

/// The kind of answer that is wanted of the API.
pub const JSON: &'static str = "application/json";

/// Delivery day provider.
pub enum DeliveryDays {
    /// The Bring API, asked as a user with a key.
    Api(ApiUid, ApiKey),
    /// A file that holds what the API would answer.
    File(PathBuf),
}

/// The headers of a request to the API, as the contracts see them: the name
/// and the value of each.
pub open spec fn api_headers(api_uid: HeaderView, api_key: HeaderView) -> Seq<
    (Seq<char>, HeaderView),
> {
    seq![
        (HEADER_ACCEPT@, HeaderView { text: JSON@, sensitive: false }),
        (HEADER_UID@, api_uid),
        (HEADER_KEY@, api_key),
    ]
}

/// The name and the value of a header, as the contracts see them.
pub open spec fn header_view(header: (&'static str, HeaderText)) -> (Seq<char>, HeaderView) {
    (header.0@, header.1@)
}

impl DeliveryDays {
    /// Read dates from the API, as the user `api_uid` with the key `api_key`.
    pub fn api(api_key: ApiKey, api_uid: ApiUid) -> (provider: Self)
        ensures
            provider matches DeliveryDays::Api(uid, key) && uid@ == api_uid@ && key@ == api_key@,
    {
        Self::Api(api_uid, api_key)
    }

    /// Read dates from file.
    #[must_use]
    pub fn file(path: PathBuf) -> (provider: Self)
        ensures
            provider == DeliveryDays::File(path),
    {
        Self::File(path)
    }

    /// The headers that a request to this provider carries: for the API the
    /// kind of answer that is wanted, the user and the key, in this order;
    /// for a file none.
    pub fn headers(&self) -> (headers: Vec<(&'static str, HeaderText)>)
        ensures
            headers@.map_values(|header: (&'static str, HeaderText)| header_view(header))
                == match self {
                DeliveryDays::Api(uid, key) => api_headers(uid@, key@),
                DeliveryDays::File(_) => Seq::empty(),
            },
    {
        let mut headers: Vec<(&'static str, HeaderText)> = Vec::new();
        match self {
            DeliveryDays::Api(uid, key) => {
                proof {
                    reveal_strlit("application/json");
                    is_ascii_chars_encode_utf8(JSON@);
                    assert(is_header_text(JSON@));
                }
                match HeaderText::from_str(JSON) {
                    Ok(json) => {
                        headers.push((HEADER_ACCEPT, json));
                        headers.push((HEADER_UID, uid.value().clone()));
                        headers.push((HEADER_KEY, key.0.clone()));
                    },
                    Err(_) => {},
                }
                proof {
                    assert(headers@.map_values(
                        |header: (&'static str, HeaderText)| header_view(header),
                    ) =~= api_headers(uid@, key@));
                }
            },
            DeliveryDays::File(_) => {
                proof {
                    assert(headers@.map_values(
                        |header: (&'static str, HeaderText)| header_view(header),
                    ) =~= Seq::<(Seq<char>, HeaderView)>::empty());
                }
            },
        }
        headers
    }
}

} // verus!
