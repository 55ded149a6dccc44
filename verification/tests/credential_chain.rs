use branch_sweeper::credentials::{
    auth_attempt_message, provider_name, push_result, CredentialChain, Provider, PushVerdict,
};
use branch_sweeper::report::Tone;

fn chain() -> CredentialChain {
    CredentialChain::new(vec![Provider::SshKey, Provider::UserPassword, Provider::Default])
}

#[test]
fn providers_are_offered_in_order_and_once() {
    let mut c = chain();
    assert!(!c.exhausted());
    assert_eq!(c.next_credential(), Some(Provider::SshKey));
    assert_eq!(c.next_credential(), Some(Provider::UserPassword));
    assert!(!c.exhausted());
    assert_eq!(c.next_credential(), Some(Provider::Default));
    assert!(c.exhausted());
    assert_eq!(c.next_credential(), None);
    assert_eq!(c.next_credential(), None);
    assert_eq!(c.offered, 3);
}

#[test]
fn empty_chain_is_exhausted_at_once() {
    let mut c = CredentialChain::new(Vec::new());
    assert!(c.exhausted());
    assert_eq!(c.next_credential(), None);
    assert_eq!(c.answer_challenges(&vec![true]), PushVerdict::Exhausted);
}

#[test]
fn first_accepted_provider_ends_the_challenges() {
    let mut c = chain();
    assert_eq!(c.answer_challenges(&vec![true, true, true]), PushVerdict::Accepted { position: 0 });
    assert_eq!(c.offered, 1);
    let mut c = chain();
    assert_eq!(c.answer_challenges(&vec![false, true, true]), PushVerdict::Accepted { position: 1 });
    assert_eq!(c.offered, 2);
    let mut c = chain();
    assert_eq!(c.answer_challenges(&vec![false, false, true]), PushVerdict::Accepted { position: 2 });
    assert_eq!(c.offered, 3);
}

#[test]
fn rejection_of_every_provider_exhausts_the_chain() {
    let mut c = chain();
    assert_eq!(c.answer_challenges(&vec![false, false, false]), PushVerdict::Exhausted);
    assert!(c.exhausted());
    assert_eq!(c.answer_challenges(&vec![true, true, true]), PushVerdict::Exhausted);
}

#[test]
fn provider_without_a_verdict_is_rejected() {
    let mut c = chain();
    assert_eq!(c.answer_challenges(&Vec::new()), PushVerdict::Exhausted);
    let mut c = chain();
    assert_eq!(c.answer_challenges(&vec![false]), PushVerdict::Exhausted);
}

#[test]
fn challenges_go_on_where_the_chain_stands() {
    let mut c = chain();
    assert_eq!(c.next_credential(), Some(Provider::SshKey));
    assert_eq!(c.answer_challenges(&vec![true, false, true]), PushVerdict::Accepted { position: 2 });
}

#[test]
fn exhaustion_is_a_push_failure() {
    assert_eq!(push_result(PushVerdict::Accepted { position: 1 }), Ok(()));
    assert_eq!(push_result(PushVerdict::Exhausted), Err("no credential was accepted".to_string()));
}

#[test]
fn attempt_is_told_with_provider_url_and_user() {
    let l = auth_attempt_message("git@example.com:me/repo.git", Some("git"), Provider::SshKey);
    assert_eq!(l.tone, Tone::Dim);
    assert_eq!(
        l.text,
        "Try authenticating with \"git\" username for git@example.com:me/repo.git by an SSH key..."
    );
    let l = auth_attempt_message("https://example.com/repo.git", None, Provider::UserPassword);
    assert_eq!(l.tone, Tone::Dim);
    assert_eq!(
        l.text,
        "Try authenticating for https://example.com/repo.git, without username, by user name and password..."
    );
}

#[test]
fn every_provider_has_its_name() {
    assert_eq!(provider_name(Provider::SshKey), "an SSH key");
    assert_eq!(provider_name(Provider::UserPassword), "user name and password");
    assert_eq!(provider_name(Provider::Default), "default credentials");
    assert_eq!(provider_name(Provider::UserName), "a user name");
    let l = auth_attempt_message("u", None, Provider::Default);
    assert_eq!(l.text, "Try authenticating for u, without username, by default credentials...");
    let l = auth_attempt_message("u", Some("me"), Provider::UserName);
    assert_eq!(l.text, "Try authenticating with \"me\" username for u by a user name...");
}
