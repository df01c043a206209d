use near_clear_state::cleanup::{map_view_state_error, read_state, ViewStateReply, STATE_TOO_LARGE};

#[test]
fn entries_keep_keys_and_value_lengths() {
    let reply = ViewStateReply::ViewState {
        values: vec![
            (b"STATE".to_vec(), vec![1, 2, 3]),
            (vec![], vec![]),
            (vec![0xff, 0x00], vec![9; 500]),
        ],
        last_key: None,
    };
    let entries = read_state(reply, "a.testnet").unwrap();
    assert_eq!(entries.len(), 3);
    assert_eq!((entries[0].key.as_slice(), entries[0].value_bytes), (&b"STATE"[..], 3));
    assert_eq!((entries[1].key.as_slice(), entries[1].value_bytes), (&b""[..], 0));
    assert_eq!((entries[2].key.as_slice(), entries[2].value_bytes), (&[0xff, 0x00][..], 500));
    let nothing = ViewStateReply::ViewState { values: vec![], last_key: None };
    assert!(read_state(nothing, "a.testnet").unwrap().is_empty());
}

#[test]
fn incomplete_listing_is_refused() {
    let part = ViewStateReply::ViewState {
        values: vec![(b"k0".to_vec(), vec![1])],
        last_key: Some(b"k0".to_vec()),
    };
    assert_eq!(
        read_state(part, "a.testnet").unwrap_err(),
        "RPC returned an incomplete state listing for <a.testnet>",
    );
}

#[test]
fn other_answers_are_refused() {
    assert_eq!(
        read_state(ViewStateReply::OtherKind, "a.testnet").unwrap_err(),
        "Unexpected RPC response kind for ViewState on <a.testnet>",
    );
}

#[test]
fn size_cap_is_explained() {
    let message = map_view_state_error("State of contract a.testnet is too large to be viewed", "");
    assert_eq!(message, STATE_TOO_LARGE);
    assert!(message.starts_with("Account state is too large for this RPC's view_state cap"));
    assert_eq!(
        message,
        "Account state is too large for this RPC's view_state cap.\n\
         Configure a permissive RPC (e.g. https://rpc.intear.tech) in \
         ~/.near/config.toml and retry.",
    );
    assert_eq!(map_view_state_error("handler error", "too large"), STATE_TOO_LARGE);
    let failed = ViewStateReply::Failed {
        rendered: "handler error".to_string(),
        inner: "TooLarge: state is too large".to_string(),
    };
    assert_eq!(read_state(failed, "a.testnet").unwrap_err(), STATE_TOO_LARGE);
}

#[test]
fn other_failures_are_passed_on() {
    assert_eq!(
        map_view_state_error("connection refused", ""),
        "Failed to fetch ViewState: connection refused",
    );
    assert_eq!(
        map_view_state_error("too  large", "Too large"),
        "Failed to fetch ViewState: too  large",
    );
    let failed = ViewStateReply::Failed {
        rendered: "unknown account".to_string(),
        inner: "UnknownAccount".to_string(),
    };
    assert_eq!(
        read_state(failed, "a.testnet").unwrap_err(),
        "Failed to fetch ViewState: unknown account",
    );
}
