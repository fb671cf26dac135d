# Ozon research

The rules of a local, read-only research server for Ozon, as a verified library, and the
server around it.

`src/` is the library. It does no input or output: it reads what pages, daemons and stored
references hold, decides what happens next, and makes the answers. Each function states what it
returns; the modules whose names end in `_laws`, and the public proof functions elsewhere, state
what holds across calls.

| Modules | What they are about |
|---|---|
| `text`, `json`, `pieces`, `members`, `double`, `keys`, `digest`, `pattern`, `address` | texts, values, numbers and URLs |
| `widgets`, `model`, `parse`, `operations`, `parse_laws` | what a page shows |
| `search`, `search_laws` | bounded chains of search calls |
| `page_outcome`, `ozon_pages`, `page_laws`, `gateway`, `context_report` | observing pages |
| `ledger`, `marketplace`, `search_results`, `product_details`, `review_pages`, `seen_chain`, `refinements`, `evidence`, `product_laws`, `review_laws`, `refinement_laws` | answers and the references in them |
| `contracts`, `presentation`, `presentation_laws`, `response`, `service`, `service_laws` | what a tool accepts and shows |
| `call_flow`, `search_call`, `product_batch`, `review_call`, `image_batch`, `journal`, `context_binding`, `executor` | the course of a call |
| `images`, `image_hosts` | fetching images from one host, decoding and encoding them |
| `browser`, `browser_error`, `driver_close`, `processes`, `files`, `config`, `broker` | the browser session, its files and the broker |

Calls into other crates stand behind small functions whose doc comments say what is taken for
granted of them.

`app/` runs the library: the frontend on standard input and output, the broker on its socket,
the browser, the store and the downloads. `tests/` holds examples.
