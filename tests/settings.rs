use monitoring_service::config::ServerdConfig;
use monitoring_service::net_tools::GetIfAddrs;
use monitoring_service::notify::{Notification, SmtpGmail};

#[test]
fn notification_keeps_its_message() {
    let n = Notification::new("disk almost full".to_string());
    assert_eq!(n.text(), "disk almost full");
}

#[test]
fn gmail_relay_and_subject() {
    let s = SmtpGmail::new();
    assert_eq!(s.relay(), "smtp.gmail.com");
    assert_eq!(s.subject(), "Noty notification");
}

#[test]
fn config_default_and_fallback_path() {
    assert_eq!(ServerdConfig::default(), ServerdConfig {});
    assert_eq!(ServerdConfig::fallback_path(), "/etc/serverd.conf");
    let _ = GetIfAddrs::new();
}
