use wayback_submit::client::{Client, Request, Settings};

fn pair(name: &str, value: &str) -> (String, String) {
    (name.to_string(), value.to_string())
}

#[test]
fn standard_settings_name_the_save_service() {
    let settings = Settings::standard();
    assert_eq!(settings.endpoint, "https://web.archive.org/save");
    assert_eq!(
        settings.user_agent,
        "Mozilla/5.0 (Windows NT 10.0; Win64; x64) AppleWebKit/537.36 (KHTML, like Gecko) Chrome/125.0.0.0 Safari/537.36"
    );
}

#[test]
fn authorization_joins_the_keys() {
    let client = Client::new(Settings::standard(), "abc".to_string(), "xyz".to_string());
    assert_eq!(client.authorization(), "LOW abc:xyz");
}

#[test]
fn authorization_passes_keys_through_as_they_are() {
    let client = Client::new(Settings::standard(), "a:b c".to_string(), "".to_string());
    assert_eq!(client.authorization(), "LOW a:b c:");
}

#[test]
fn request_holds_endpoint_headers_and_form() {
    let client = Client::new(Settings::standard(), "abc".to_string(), "xyz".to_string());
    let request = client.request("https://a.example/page?x=1");
    assert_eq!(
        request,
        Request {
            method: "POST".to_string(),
            endpoint: "https://web.archive.org/save".to_string(),
            headers: vec![
                pair("Accept", "application/json"),
                pair("Authorization", "LOW abc:xyz"),
            ],
            form: vec![pair("url", "https://a.example/page?x=1"), pair("capture_all", "on")],
        }
    );
}

#[test]
fn request_goes_to_the_endpoint_of_the_settings() {
    let settings = Settings {
        endpoint: "http://localhost:8080/save".to_string(),
        user_agent: "test".to_string(),
    };
    let client = Client::new(settings, "k".to_string(), "s".to_string());
    let request = client.request("https://a.example");
    assert_eq!(request.method, "POST");
    assert_eq!(request.endpoint, "http://localhost:8080/save");
    assert_eq!(request.form[0], pair("url", "https://a.example"));
}
