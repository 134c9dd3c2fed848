# rnd_alerts

Collects calls for R&D proposals and bids from nine Korean public agencies,
keeps those that are still open and whose title holds one of the configured
keywords, drops those already reported, and posts the rest to Slack in batches.

- `src/` is the verified library: the reading of each agency's listing and
  detail pages, deadline parsing and keyword matching, the record of reported
  ids, the Slack message layout and the configuration lists. HTML parsing
  (`scraper`), regular expressions (`regex`) and date parsing (`chrono`) are
  called through small functions whose contracts name what they return.
- `app/` is the program around it: HTTP requests, the summarizing service,
  the clock-driven schedule, the environment and the file of reported ids.
- `tests/` runs the library on sample pages and values.
