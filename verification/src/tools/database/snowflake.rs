//! A tool that runs SQL on Snowflake through its REST API.
use vstd::prelude::*;
use vstd::string::*;

verus! {

/// Runs SQL statements on a Snowflake account with an OAuth token.
#[derive(Debug)]
pub struct SnowflakeTool {
    account: String,
    token: String,
}

impl SnowflakeTool {
    /// The account name.
    pub closed spec fn account_name(&self) -> Seq<char> {
        self.account@
    }

    /// The OAuth token.
    pub closed spec fn oauth_token(&self) -> Seq<char> {
        self.token@
    }

    /// A tool for `account`, authenticating with `token`.
    pub fn new(account: &str, token: &str) -> (tool: Self)
        ensures
            tool.account_name() == account@,
            tool.oauth_token() == token@,
    {
        SnowflakeTool { account: account.to_string(), token: token.to_string() }
    }

    /// The tool's name.
    pub fn name(&self) -> (name: &'static str)
        ensures
            name@ == "snowflake"@,
    {
        "snowflake"
    }

    /// What the tool does.
    pub fn description(&self) -> (text: &'static str)
        ensures
            text@ == "Integrate with Snowflake data warehouses via the REST SQL API."@,
    {
        "Integrate with Snowflake data warehouses via the REST SQL API."
    }

    /// The statements endpoint of the account.
    pub fn statements_url(&self) -> (url: String)
        ensures
            url@ == "https://"@ + self.account_name() + ".snowflakecomputing.com/api/v2/statements"@,
    {
        let mut url = "https://".to_string();
        url.append(self.account.as_str());
        url.append(".snowflakecomputing.com/api/v2/statements");
        url
    }

    /// The `Authorization` header value.
    pub fn authorization(&self) -> (header: String)
        ensures
            header@ == "Bearer "@ + self.oauth_token(),
    {
        let mut header = "Bearer ".to_string();
        header.append(self.token.as_str());
        header
    }
}

} // verus!
