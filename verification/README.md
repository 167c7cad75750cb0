# content_sync

Content-migration tools around Sanity, Blogger, Wix and an MLS listing site.
The library (`src/`) holds their logic, verified with Verus:

- `text`, `numbers`: trimming, substring replacement, splitting, and decimal
  integers read and written as `str::parse` and `Display` do.
- `html`: CSS selection over HTML text (the `scraper` crate), with each match
  handed back as plain values.
- `sanity`: the file name under which an image is uploaded, request URLs, and
  what a query status means.
- `blogger`: Blogger posts and the image pass, a state machine that says which
  image to fetch, under which name to upload it, and when to stop.
- `realestate`: reading a listing search page, the fields of each listing,
  public pictures, county, and the listing record.
- `webhook`: the Wix app webhook: the RS256 check of a request's token
  against the app's public key (the `jsonwebtoken` crate), and its answer.

`app/` runs the tools: HTTP, environment, clock, JSON parsing into serde
types, and logging.
