use interaction_webhook::dispatch::{dispatch, CommandRegistry, DispatchError};
use interaction_webhook::encode::InteractionResponse;
use interaction_webhook::envelope::Interaction;

fn registry() -> CommandRegistry {
    let mut r = CommandRegistry::new();
    r.add_command(
        b"city".to_vec(),
        vec![b"Tokyo".to_vec(), b"Lagos".to_vec(), b"Lima".to_vec()],
    );
    r.add_command(b"state".to_vec(), vec![b"Utah".to_vec()]);
    r
}

#[test]
fn ping_always_pongs() {
    let r = registry();
    assert_eq!(dispatch(&Interaction::Ping, &r), Ok(InteractionResponse::Pong));
    let empty = CommandRegistry::new();
    assert_eq!(dispatch(&Interaction::Ping, &empty), Ok(InteractionResponse::Pong));
}

#[test]
fn command_draws_from_its_word_list() {
    let r = registry();
    for _ in 0..50 {
        let got = dispatch(
            &Interaction::ApplicationCommand { name: b"city".to_vec() },
            &r,
        )
        .unwrap();
        match got {
            InteractionResponse::ChannelMessageWithSource { content } => {
                assert!(
                    content == b"Tokyo".to_vec()
                        || content == b"Lagos".to_vec()
                        || content == b"Lima".to_vec()
                );
            },
            other => panic!("unexpected response {:?}", other),
        }
    }
}

#[test]
fn single_word_command_is_deterministic() {
    let r = registry();
    let got = dispatch(
        &Interaction::ApplicationCommand { name: b"state".to_vec() },
        &r,
    )
    .unwrap();
    assert_eq!(
        got,
        InteractionResponse::ChannelMessageWithSource { content: b"Utah".to_vec() }
    );
}

#[test]
fn draws_vary_over_repeated_calls() {
    let r = registry();
    let mut seen = std::collections::BTreeSet::new();
    for _ in 0..200 {
        if let Ok(InteractionResponse::ChannelMessageWithSource { content }) = dispatch(
            &Interaction::ApplicationCommand { name: b"city".to_vec() },
            &r,
        ) {
            seen.insert(content);
        }
    }
    assert!(seen.len() > 1, "200 draws from a 3-word list never varied");
}

#[test]
fn unknown_command_fails() {
    let r = registry();
    let got = dispatch(
        &Interaction::ApplicationCommand { name: b"doesnotexist".to_vec() },
        &r,
    );
    assert_eq!(
        got,
        Err(DispatchError::UnknownCommand(b"doesnotexist".to_vec()))
    );
}

#[test]
fn name_match_is_exact() {
    let r = registry();
    for name in [&b"cit"[..], b"cityy", b"City", b""] {
        assert!(matches!(
            dispatch(&Interaction::ApplicationCommand { name: name.to_vec() }, &r),
            Err(DispatchError::UnknownCommand(_))
        ));
    }
}
