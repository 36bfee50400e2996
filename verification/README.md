# cms_dl

A library for downloading the course contents of the GIU CMS, verified with
Verus, and the command-line program around it.

- `src/` is the verified library: reading the course list and course pages
  (`parser`, over the plain values that `html` extracts from the pages),
  filtering courses (`utils`), the configuration (`config`), page addresses
  (`client`), the driver archive names (`fetcher`), and the planning and
  scheduling of downloads (`downloader`).
- `app/` is the program: command-line arguments, prompts, the configuration
  file, the HTTP client and the transfers, which follow the decisions of
  `downloader::scheduler::DownloadScheduler`; a transfer stopped for the size
  limit has its file removed, as `DownloadScheduler::finish` directs.
