//! Error handling.

use vstd::prelude::*;

verus! {

/// All major errors that can occur while responding to a request.
#[derive(Clone, Debug, PartialEq, Eq)]
#[allow(inconsistent_fields)]
pub enum TelescopeError {
    /// 404 - Page not found. Use [`TelescopeError::ResourceNotFound`]
    /// instead when possible, as it will have more info.
    PageNotFound,
    /// 404 - Resource Not Found.
    ResourceNotFound {
        /// The header of the jumbotron to be displayed.
        header: String,
        /// The message to display under the jumbotron.
        message: String,
    },
    /// An error in rendering a template. This will report as an internal
    /// server error.
    RenderingError {
        /// Description of the error.
        desc: String,
        /// The name of the template that the error was in.
        template_name: Option<String>,
        /// The line that the error was on.
        line_no: Option<usize>,
        /// The column that the error was on.
        column_no: Option<usize>,
    },
    /// An internal future was canceled unexpectedly. This will always report
    /// as an internal server error.
    FutureCanceled,
    /// There was an internal server error.
    InternalServerError(String),
    /// The request was malformed.
    BadRequest {
        /// The header of the jumbotron to be displayed.
        header: String,
        /// The error message to be displayed under the jumbotron.
        message: String,
    },
    /// Error saving an email to the local filesystem.
    LettreFileError {
        /// A description of the cause.
        description: String,
    },
    /// Error sending mail over SMTP.
    LettreSmtpError {
        /// The description of the error.
        description: String,
    },
    /// A negative response from the SMTP server, indicating a failure to
    /// authenticate or send an email.
    NegativeSmtpResponse {
        /// The three-digit reply code.
        code: u16,
        /// The lines of the reply.
        message: Vec<String>,
    },
    /// Error to send when user accesses something that is not yet
    /// implemented.
    NotImplemented,
    /// Could not extract the remote IP address from the request.
    IpExtractionError,
    /// CSRF token not found.
    CsrfTokenNotFound,
    /// The CSRF token provided by the request did not match the one
    /// generated by the server.
    CsrfTokenMismatch,
    /// Error interacting with the RCOS central API.
    RcosApiError(String),
    /// Error interacting with GitHub's API.
    GitHubApiError(String),
    /// A GraphQL API responded with errors.
    GraphQLError {
        /// The API platform.
        platform: String,
        /// The errors that were returned, each as text.
        errors: Vec<String>,
    },
    /// The user submitted invalid data to a form. The value is the form,
    /// serialized, to be displayed for the user to try again.
    InvalidForm(String),
    /// An unauthenticated user is trying to access a page that requires
    /// authentication.
    NotAuthenticated,
    /// An authenticated user is trying to do what they are not allowed to.
    Forbidden,
}

impl TelescopeError {
    /// The HTTP status that this error is answered with.
    pub open spec fn status(&self) -> u16 {
        match self {
            TelescopeError::BadRequest { .. } => 400,
            TelescopeError::ResourceNotFound { .. } => 404,
            TelescopeError::PageNotFound => 404,
            TelescopeError::NotImplemented => 501,
            TelescopeError::CsrfTokenNotFound => 404,
            TelescopeError::CsrfTokenMismatch => 400,
            TelescopeError::InvalidForm(_) => 400,
            TelescopeError::NotAuthenticated => 401,
            TelescopeError::Forbidden => 403,
            _ => 500,
        }
    }

    /// Whether this error is a fault of the server rather than of the
    /// request: it is answered with a status of the 5xx class.
    pub open spec fn is_server_fault(&self) -> bool {
        self.status() >= 500
    }

    /// Create a resource not found error.
    pub fn resource_not_found(header: String, message: String) -> (e: Self)
        ensures
            e == (TelescopeError::ResourceNotFound { header, message }),
    {
        TelescopeError::ResourceNotFound { header, message }
    }

    /// Construct an Internal Server Error.
    pub fn ise(message: String) -> (e: Self)
        ensures
            e == TelescopeError::InternalServerError(message),
            e.is_server_fault(),
    {
        TelescopeError::InternalServerError(message)
    }

    /// Construct a Bad Request error.
    pub fn bad_request(header: String, message: String) -> (e: Self)
        ensures
            e == (TelescopeError::BadRequest { header, message }),
    {
        TelescopeError::BadRequest { header, message }
    }

    /// The error for a failed request to the RCOS API, from the
    /// description of what went wrong.
    pub fn rcos_api_error(description: String) -> (e: Self)
        ensures
            e == TelescopeError::RcosApiError(description),
    {
        TelescopeError::RcosApiError(description)
    }

    /// The error for a failed request to the GitHub API, from the
    /// description of what went wrong.
    pub fn github_api_error(description: String) -> (e: Self)
        ensures
            e == TelescopeError::GitHubApiError(description),
    {
        TelescopeError::GitHubApiError(description)
    }

    /// The error that sends an invalid form back to the user, from the
    /// serialized form.
    pub fn invalid_form(form: String) -> (e: Self)
        ensures
            e == TelescopeError::InvalidForm(form),
    {
        TelescopeError::InvalidForm(form)
    }

    /// The HTTP status code to answer this error with. Everything that is
    /// not named here is an internal server error.
    pub fn status_code(&self) -> (code: u16)
        ensures
            code == self.status(),
            code == 400 || code == 401 || code == 403 || code == 404 || code == 500 || code == 501,
    {
        match self {
            TelescopeError::BadRequest { .. } => 400,
            TelescopeError::ResourceNotFound { .. } => 404,
            TelescopeError::PageNotFound => 404,
            TelescopeError::NotImplemented => 501,
            TelescopeError::CsrfTokenNotFound => 404,
            TelescopeError::CsrfTokenMismatch => 400,
            TelescopeError::InvalidForm(_) => 400,
            TelescopeError::NotAuthenticated => 401,
            TelescopeError::Forbidden => 403,
            _ => 500,
        }
    }
}

} // verus!
