use no_more_termius::session::{host_key_answered, host_key_checked, AuthStage, AuthStep, HostKeyCheck, HostKeyStep, Login};
use no_more_termius::worker::SftpRequest;

#[test]
fn host_key_decisions() {
    assert!(matches!(host_key_checked(HostKeyCheck::Match, "h", "SHA256:x"), HostKeyStep::Proceed));
    assert!(matches!(host_key_checked(HostKeyCheck::NotFound, "h", "SHA256:x"), HostKeyStep::Ask));
    assert!(matches!(host_key_checked(HostKeyCheck::Failure, "h", "SHA256:x"), HostKeyStep::Ask));
    match host_key_checked(HostKeyCheck::Mismatch, "h", "SHA256:x") {
        HostKeyStep::Abort(m) => assert_eq!(
            m,
            "HOST KEY MISMATCH for h (SHA256:x) — possible man-in-the-middle. Fix ~/.ssh/known_hosts manually if the host legitimately changed."
        ),
        _ => panic!("expected abort"),
    }
}

#[test]
fn host_key_answers() {
    match host_key_answered(Some(&SftpRequest::AcceptHostKey(true)), "h", 2222) {
        HostKeyStep::Trust(n) => assert_eq!(n, "[h]:2222"),
        _ => panic!("expected trust"),
    }
    assert!(matches!(host_key_answered(Some(&SftpRequest::AcceptHostKey(false)), "h", 22), HostKeyStep::Abort(m) if m == "host key rejected"));
    assert!(matches!(host_key_answered(None, "h", 22), HostKeyStep::Abort(m) if m == "cancelled"));
    assert!(matches!(host_key_answered(Some(&SftpRequest::Passphrase(None)), "h", 22), HostKeyStep::Wait));
}

#[test]
fn key_then_passphrases_then_agent_then_defaults() {
    let (mut login, step) = Login::start("me".into(), "h".into(), true);
    assert!(matches!(step, AuthStep::TryKey(None)));
    assert!(matches!(login.key_tried(false, false), AuthStep::AskPassphrase));
    for n in 1..=3u8 {
        let step = login.passphrase_replied(Some(SftpRequest::Passphrase(Some(format!("p{n}")))), false);
        assert!(matches!(step, AuthStep::TryKey(Some(ref p)) if *p == format!("p{n}")));
        let step = login.key_tried(false, false);
        if n < 3 {
            assert!(matches!(step, AuthStep::AskPassphrase));
        } else {
            assert!(matches!(step, AuthStep::TryAgent));
        }
    }
    assert!(matches!(login.agent_tried(false, true), AuthStep::TryDefault(ref k) if k == "id_ed25519"));
    assert!(matches!(login.default_tried(false), AuthStep::TryDefault(ref k) if k == "id_rsa"));
    assert!(matches!(login.default_tried(false), AuthStep::TryDefault(ref k) if k == "id_ecdsa"));
    match login.default_tried(false) {
        AuthStep::Failed(m) => assert_eq!(m, "authentication failed for me@h (tried key file, ssh-agent, default keys)"),
        _ => panic!("expected failure"),
    }
    assert!(login.stage == AuthStage::Done);
}

#[test]
fn cancelled_prompt_falls_through_to_the_agent() {
    let (mut login, _) = Login::start("me".into(), "h".into(), true);
    login.key_tried(false, false);
    assert!(matches!(login.passphrase_replied(Some(SftpRequest::Passphrase(None)), false), AuthStep::TryAgent));
    assert!(matches!(login.agent_tried(true, true), AuthStep::Succeeded));
}

#[test]
fn no_key_starts_with_the_agent_and_closing_cancels() {
    let (mut login, step) = Login::start("me".into(), "h".into(), false);
    assert!(matches!(step, AuthStep::TryAgent));
    assert!(matches!(login.agent_tried(false, false), AuthStep::Failed(_)));
    let (mut login, _) = Login::start("me".into(), "h".into(), true);
    login.key_tried(false, false);
    assert!(matches!(login.passphrase_replied(None, false), AuthStep::Failed(m) if m == "cancelled"));
}
