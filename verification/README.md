# create_license

The license API method of Plugin Licensor: a store sends an encrypted,
signed purchase; the method records the license in DynamoDB and answers with
the license, encrypted and signed.

`src/` is the library, verified with Verus:

- `text`, `encoding`: strings, decimal numbers, base64 and hexadecimal;
  cleansing of ids and of email addresses.
- `attr`, `maps`: DynamoDB items as ordered maps of attribute values, and the
  operations the method performs on them.
- `license`: the license returned to the store, read from a user's items.
- `input`, `decrypted`: the request and the steps that prepare it: validation,
  the batch get of the company, user and plugin items, the license index and
  items, the keys and items written.
- `update`: the update of the user item and the license item with each
  product bought.
- `db`: offline secrets and license codes.
- `crypto`, `response`: hashing, RSA signatures and encryption (OpenSSL), and
  the encrypted, signed answer.
- `error`: errors with their HTTP status code.
- `laws`: properties that relate the operations.

Calls into OpenSSL, base64, sha3, rand and substring stand behind small
trusted functions whose contracts say what those crates do.

`app/` is the Lambda function around the library: HTTP, DynamoDB calls and
JSON. The method's keys and the store's own id and AES encryption are kept
apart from this repository; the deployment hands them in through the
`Secrets` trait and calls `run`.
