use telescope::error::TelescopeError;

fn text(s: &str) -> String {
    s.to_string()
}

#[test]
fn constructors_fill_the_variants() {
    assert_eq!(
        TelescopeError::resource_not_found(text("Meeting Not Found"), text("No such meeting.")),
        TelescopeError::ResourceNotFound {
            header: text("Meeting Not Found"),
            message: text("No such meeting."),
        }
    );
    assert_eq!(TelescopeError::ise(text("boom")), TelescopeError::InternalServerError(text("boom")));
    assert_eq!(
        TelescopeError::bad_request(text("Malformed"), text("Try again.")),
        TelescopeError::BadRequest { header: text("Malformed"), message: text("Try again.") }
    );
    assert_eq!(
        TelescopeError::rcos_api_error(text("timed out")),
        TelescopeError::RcosApiError(text("timed out"))
    );
    assert_eq!(
        TelescopeError::github_api_error(text("timed out")),
        TelescopeError::GitHubApiError(text("timed out"))
    );
    assert_eq!(
        TelescopeError::invalid_form(text("{\"issues\":{}}")),
        TelescopeError::InvalidForm(text("{\"issues\":{}}"))
    );
}

#[test]
fn status_codes_of_request_faults() {
    assert_eq!(TelescopeError::bad_request(text("h"), text("m")).status_code(), 400);
    assert_eq!(TelescopeError::CsrfTokenMismatch.status_code(), 400);
    assert_eq!(TelescopeError::invalid_form(text("{}")).status_code(), 400);
    assert_eq!(TelescopeError::NotAuthenticated.status_code(), 401);
    assert_eq!(TelescopeError::Forbidden.status_code(), 403);
    assert_eq!(TelescopeError::resource_not_found(text("h"), text("m")).status_code(), 404);
    assert_eq!(TelescopeError::PageNotFound.status_code(), 404);
    assert_eq!(TelescopeError::CsrfTokenNotFound.status_code(), 404);
}

#[test]
fn status_codes_of_server_faults() {
    assert_eq!(TelescopeError::NotImplemented.status_code(), 501);
    for error in [
        TelescopeError::RenderingError {
            desc: text("d"),
            template_name: None,
            line_no: Some(1),
            column_no: None,
        },
        TelescopeError::FutureCanceled,
        TelescopeError::ise(text("m")),
        TelescopeError::LettreFileError { description: text("d") },
        TelescopeError::LettreSmtpError { description: text("d") },
        TelescopeError::NegativeSmtpResponse { code: 550, message: vec![text("no")] },
        TelescopeError::IpExtractionError,
        TelescopeError::rcos_api_error(text("d")),
        TelescopeError::github_api_error(text("d")),
        TelescopeError::GraphQLError { platform: text("GitHub"), errors: vec![] },
    ] {
        assert_eq!(error.status_code(), 500, "{:?}", error);
    }
}
