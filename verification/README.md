# hana_backend

The logic of a SAP HANA backend plugin for an MCP gateway, verified with Verus.

A binding declares one operator-fixed SQL statement. The library checks its
configuration, plans each call (the statement and the values bound to its `?`),
caps and marshals the rows of the answer, and builds the envelope, contents,
messages, pages or candidates that the gateway expects. The watch strategy
`hana_poll` is planned the same way.

| Directory | Contents |
|---|---|
| `src/` | the library; Verus proves the contract of every function but the wrappers named below |
| `tests/` | tests on concrete values, with the real outside crates |
| `app/` | reading configurations, the `bb8` pool over `hdbconnect_async`, and the traits of the gateway |

What holds of every input is stated in the `law_*` proof functions, among them:

- what a caller sends never alters the text of a statement
  (`calls::law_arguments_never_alter_the_statement`,
  `engine::law_filter_values_stay_out_of_sql`, `listing::law_cursor_is_data`);
- a catalog query has one bind for each `?`
  (`engine::law_catalog_binds_match_placeholders`);
- the statements of a read-only binding have passed the read-only guard, and a
  refused one is never executed (`profile::law_accepted_statements_pass_the_guard`,
  `calls::law_refused_statements_are_never_executed`);
- no accepted statement, host or password holds a bare `cred://` URI
  (`profile::law_accepted_statements_hold_no_bare_cred`), and every binding stays
  sound over any sequence of registrations
  (`plugin::law_registered_profiles_are_sound`);
- `list_columns` never lists every column of the database
  (`calls::law_list_columns_names_a_table`);
- what is bound comes back as it is (`marshal::law_binds_come_back_as_they_are`);
- the rows of an answer are a prefix of the result set within both caps
  (`marshal::law_rows_are_capped_prefix`);
- a failed call is always marked, and audited
  (`calls::law_reports_mark_failures`, `audit::law_failures_are_audited`).

Calls out of the library stand behind small wrappers whose contracts Verus takes
on trust: `json` (`serde_json`), `marshal` (`base64`, and `std::str::from_utf8`),
`connection` (`hdbconnect_async`). `text` takes `String::push` of std on trust.
