# cc-downloader

A polite downloader for [Common Crawl](https://commoncrawl.org) data, written in Verus.

The library (`src/`) holds every decision a download makes, each with a proved contract:

- `cli` — the data types and subsets, the command line's types and argument checks.
- `snapshot` — crawl references (`CC-MAIN-YYYY-WW`, `CC-NEWS-YYYY-MM`) and their validation.
- `download` — download options, the URL of a paths index, where each file is stored,
  how an HTTP answer is judged, the retry policy, the rate limit, and when a run has failed.
- `paths_file` — reading a paths index (gzip-compressed or plain text) line by line, keeping the lines of
  chosen `cc-index-table` subsets, and writing them back.
- `text` — decimal numbers, substring search, path joining and number parsing.
- `errors` — the error type and its message.
- `third_party` — the calls into gzip, regex, URL parsing and UTF-8 decoding, with what each
  is believed to do.

The program (`app/`) does the network and disk work: the command line, the HTTP requests with
retries, the files, the progress bars, the concurrency, and the Python bindings.
