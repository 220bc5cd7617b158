# github_activity

The GitHub side of an editor and its server, as a library whose behaviour is stated in
contracts and proved with Verus.

- `github` holds what the GitHub API says, the requests that are made of it, and what
  is made of its answers: activity, device authorization, releases.
- `cloud_api_types` and `cloud_api_client` are the cloud API's types and its client.
- `integrations`, `inbox` and `collab_api` are the server's side: how an account and an
  inbox are kept, which routes there are, and how activity is gathered page by page.
- `pr_diff`, `pr_view`, `pr_page`, `virtual_diff`, `issue_linking` and `popover_menu`
  are the views: patches, reviews, checks, and links to issues.
- `text`, `sorting`, `models` and `http_request` are what the others are built from.
- `outside` holds every item that is believed rather than proved, one for each function
  of another crate that the library calls.

Public functions named `lemma_...` state what holds of several functions together.

`app/` is the ordinary Rust around the library: JSON, HTTP, the database, the web
server and the socket. `tests/` runs the library.
