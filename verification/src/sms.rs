//! What the text-message gateway is asked and what it answers.
//!
//! Nothing here talks to the gateway. These are the requests that are due, as plain values,
//! and the reading of the gateway's answer.

use vstd::prelude::*;
use vstd::string::StringExecFns;
use crate::dispatch::Delivery;

verus! {

/// The account at the gateway through which notifications leave.
#[derive(Debug, Clone, PartialEq, Eq)]
pub struct TwilioConfig {
    pub account_sid: String,
    pub auth_token: String,
    pub phone_number: String,
}

/// The gateway's answer to a lookup of a phone number.
#[derive(Debug, Clone, PartialEq, Eq)]
pub struct VerifiedPhoneNumber {
    pub calling_country_code: String,
    pub country_code: String,
    pub national_format: String,
    pub phone_number: String,
    pub url: String,
    pub valid: bool,
}

/// A text message that is to be posted to the gateway.
#[derive(Debug, Clone, PartialEq, Eq)]
pub struct MessageRequest {
    /// Where the request goes.
    pub url: String,
    /// The user and the password of the request.
    pub user: String,
    pub password: String,
    /// The three fields of the form.
    pub to: String,
    pub from: String,
    pub body: String,
}

/// The mathematical value of a [`MessageRequest`].
pub struct MessageRequestView {
    pub url: Seq<char>,
    pub user: Seq<char>,
    pub password: Seq<char>,
    pub to: Seq<char>,
    pub from: Seq<char>,
    pub body: Seq<char>,
}

impl View for MessageRequest {
    type V = MessageRequestView;

    open spec fn view(&self) -> MessageRequestView {
        MessageRequestView {
            url: self.url@,
            user: self.user@,
            password: self.password@,
            to: self.to@,
            from: self.from@,
            body: self.body@,
        }
    }
}

/// A lookup of a phone number that is to be fetched from the gateway.
#[derive(Debug, Clone, PartialEq, Eq)]
pub struct LookupRequest {
    pub url: String,
    pub user: String,
    pub password: String,
}

/// Why a notification did not go out.
#[derive(Debug, Clone, Copy, PartialEq, Eq, Structural)]
pub enum DeliveryError {
    /// The gateway answered with a status that is no success.
    Rejected { status: u16 },
}

/// The address to which the messages of the account `account_sid` are posted.
pub open spec fn messages_url(account_sid: Seq<char>) -> Seq<char> {
    "https://api.twilio.com/2010-04-01/Accounts/"@ + account_sid + "/Messages.json"@
}

/// The address from which the lookup of `number` is fetched.
pub open spec fn lookup_url(number: Seq<char>) -> Seq<char> {
    "https://lookups.twilio.com/v2/PhoneNumbers/"@ + number
}

impl TwilioConfig {
    /// The request that sends the text `body` to the number `to`.
    pub fn message_request(&self, to: &str, body: &str) -> (request: MessageRequest)
        ensures
            request@ == (MessageRequestView {
                url: messages_url(self.account_sid@),
                user: self.account_sid@,
                password: self.auth_token@,
                to: to@,
                from: self.phone_number@,
                body: body@,
            }),
    {
        let mut url = "https://api.twilio.com/2010-04-01/Accounts/".to_string();
        url.append(self.account_sid.as_str());
        url.append("/Messages.json");
        MessageRequest {
            url,
            user: self.account_sid.clone(),
            password: self.auth_token.clone(),
            to: to.to_string(),
            from: self.phone_number.clone(),
            body: body.to_string(),
        }
    }

    /// The request that carries out `delivery`: the text of the record, to the destination.
    pub fn notification(&self, delivery: &Delivery) -> (request: MessageRequest)
        ensures
            request@ == (MessageRequestView {
                url: messages_url(self.account_sid@),
                user: self.account_sid@,
                password: self.auth_token@,
                to: delivery.destination_address@,
                from: self.phone_number@,
                body: delivery.record.text@,
            }),
    {
        self.message_request(delivery.destination_address.as_str(), delivery.record.text.as_str())
    }

    /// The request that looks up `input_number`.
    pub fn lookup_request(&self, input_number: &str) -> (request: LookupRequest)
        ensures
            request.url@ == lookup_url(input_number@),
            request.user@ == self.account_sid@,
            request.password@ == self.auth_token@,
    {
        let mut url = "https://lookups.twilio.com/v2/PhoneNumbers/".to_string();
        url.append(input_number);
        LookupRequest { url, user: self.account_sid.clone(), password: self.auth_token.clone() }
    }
}

/// Reads the status with which the gateway answered a message: a status from 200 to 299 is a
/// success, every other a rejection.
pub fn delivery_outcome(status: u16) -> (outcome: Result<(), DeliveryError>)
    ensures
        outcome == if 200 <= status < 300 {
            Ok::<(), DeliveryError>(())
        } else {
            Err::<(), DeliveryError>(DeliveryError::Rejected { status })
        },
{
    if 200 <= status && status < 300 {
        Ok(())
    } else {
        Err(DeliveryError::Rejected { status })
    }
}

} // verus!
